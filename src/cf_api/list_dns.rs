use super::{CfDnsRecord, Message, ProviderError};
use crate::address::{ip_text, ip_to_string, IpAddr};
use vstd::prelude::*;

verus! {

/// The provider's answer to a record listing.
#[derive(Debug, Clone, PartialEq, Default)]
pub struct ListDns {
    pub errors: Vec<Message>,
    pub success: bool,
    pub result: Vec<DnsRecordResult>,
}

impl ListDns {
    /// The listed records when the provider reports success, its messages
    /// otherwise.
    pub fn into_result(self) -> (r: Result<Vec<DnsRecordResult>, ProviderError>)
        ensures
            self.success ==> r == Ok::<Vec<DnsRecordResult>, ProviderError>(self.result),
            !self.success ==> r == Err::<Vec<DnsRecordResult>, ProviderError>(
                ProviderError::Rejected(self.errors),
            ),
    {
        if self.success {
            Ok(self.result)
        } else {
            Err(ProviderError::Rejected(self.errors))
        }
    }
}

/// Paging information of a record listing.
#[derive(Debug, Clone, PartialEq, Default)]
pub struct ListDnsInfo {
    pub count: Option<i64>,
    pub page: Option<i64>,
    pub per_page: Option<i64>,
    pub total_count: Option<i64>,
}

/// A record as the provider lists it.
#[derive(Debug, Clone, PartialEq, Default)]
pub struct DnsRecordResult {
    pub comment: Option<String>,
    pub name: String,
    pub content: String,
    pub type_field: String,
    pub id: String,
}

impl DnsRecordResult {
    /// Whether the record's content is the text form of `ip`.
    pub fn matches_ip(&self, ip: &IpAddr) -> (r: bool)
        ensures
            r == (self.content@ == ip_text(*ip)),
    {
        let t = ip_to_string(ip);
        self.content == t
    }

    /// The record in the shape used for creation, with no proxy flag, tags or
    /// TTL.
    pub fn into_cf_record(self) -> (r: CfDnsRecord)
        ensures
            r.name == self.name,
            r.type_field == self.type_field,
            r.content == self.content,
            r.comment == self.comment,
            r.proxied is None,
            r.tags@.len() == 0,
            r.ttl is None,
    {
        CfDnsRecord {
            name: self.name,
            type_field: self.type_field,
            content: self.content,
            comment: self.comment,
            proxied: None,
            tags: Vec::new(),
            ttl: None,
        }
    }
}

/// A tag filter of a record listing.
#[derive(Debug, Clone, PartialEq, Default)]
pub struct Tag {
    pub absent: Option<String>,
    pub contains: Option<String>,
    pub endwith: Option<String>,
    pub exact: Option<String>,
    pub present: Option<String>,
    pub startwith: Option<String>,
}

/// Provider metadata of a record.
#[derive(Debug, Clone, PartialEq, Default)]
pub struct Meta {
    pub auto_added: Option<bool>,
}

} // verus!
