use crate::address::{ip_text, ip_to_string, IpAddr};
use crate::config::DnsRecordConfig;
use crate::text::{clone_opt_string, clone_strings, opt_text, texts};
use vstd::prelude::*;

pub mod create_dns;
pub mod delete_dns;
pub mod list_dns;
pub mod list_zones;

verus! {

/// A record as sent to the provider when it is created.
#[derive(Debug, Clone, PartialEq, Default)]
pub struct CfDnsRecord {
    pub name: String,
    pub type_field: String,
    pub content: String,
    pub comment: Option<String>,
    pub proxied: Option<bool>,
    pub tags: Vec<String>,
    pub ttl: Option<i64>,
}

/// What a [`CfDnsRecord`] holds, as text.
pub struct RecordView {
    pub name: Seq<char>,
    pub type_field: Seq<char>,
    pub content: Seq<char>,
    pub comment: Option<Seq<char>>,
    pub proxied: Option<bool>,
    pub tags: Seq<Seq<char>>,
    pub ttl: Option<i64>,
}

impl View for CfDnsRecord {
    type V = RecordView;

    open spec fn view(&self) -> RecordView {
        RecordView {
            name: self.name@,
            type_field: self.type_field@,
            content: self.content@,
            comment: opt_text(self.comment),
            proxied: self.proxied,
            tags: texts(self.tags@),
            ttl: self.ttl,
        }
    }
}

/// The record type that holds an address: `A` for IPv4, `AAAA` for IPv6.
pub open spec fn record_type(ip: IpAddr) -> Seq<char> {
    if ip.is_v4() {
        seq!['A']
    } else {
        seq!['A', 'A', 'A', 'A']
    }
}

/// The record that a template yields for an address.
pub open spec fn record_for(ip: IpAddr, c: DnsRecordConfig) -> RecordView {
    RecordView {
        name: c.name@,
        type_field: record_type(ip),
        content: ip_text(ip),
        comment: opt_text(c.comment),
        proxied: Some(c.proxied),
        tags: texts(c.tags@),
        ttl: c.ttl,
    }
}

impl CfDnsRecord {
    /// The record for `ip` made from the template `dns_config`.
    pub fn create(ip: IpAddr, dns_config: &DnsRecordConfig) -> (r: Self)
        ensures
            r@ == record_for(ip, *dns_config),
    {
        proof {
            reveal_strlit("A");
            reveal_strlit("AAAA");
        }
        let type_field = match ip {
            IpAddr::V4(_) => "A",
            IpAddr::V6(_) => "AAAA",
        };
        let tags = clone_strings(&dns_config.tags);
        let comment = clone_opt_string(&dns_config.comment);
        let r = CfDnsRecord {
            name: dns_config.name.clone(),
            type_field: type_field.to_owned(),
            content: ip_to_string(&ip),
            comment,
            proxied: Some(dns_config.proxied),
            tags,
            ttl: dns_config.ttl,
        };
        assert(r@.type_field =~= record_type(ip));
        r
    }
}

/// An error or message reported by the provider.
#[derive(Debug, Clone, PartialEq, Eq, Hash, Default)]
pub struct Message {
    pub code: i64,
    pub message: String,
}

/// The provider's answer to a create request.
#[derive(Debug, Clone, PartialEq, Default)]
pub struct DnsOperationResponse {
    pub success: bool,
    pub errors: Vec<Message>,
}

/// Why a provider operation failed although the call itself completed.
#[derive(Debug, Clone, PartialEq)]
pub enum ProviderError {
    /// The provider reported failure, with its messages.
    Rejected(Vec<Message>),
    /// A deletion was confirmed for another record id than the one asked for.
    IdMismatch { expected: String, confirmed: String },
}

/// A write against the provider, decided by the reconciliation engine.
#[derive(Debug, Clone, PartialEq)]
pub enum DnsOperation {
    Create { zone_id: String, record: CfDnsRecord },
    Delete { zone_id: String, record_id: String },
}

pub enum OperationView {
    Create { zone_id: Seq<char>, record: RecordView },
    Delete { zone_id: Seq<char>, record_id: Seq<char> },
}

impl View for DnsOperation {
    type V = OperationView;

    open spec fn view(&self) -> OperationView {
        match self {
            DnsOperation::Create { zone_id, record } => OperationView::Create {
                zone_id: zone_id@,
                record: record@,
            },
            DnsOperation::Delete { zone_id, record_id } => OperationView::Delete {
                zone_id: zone_id@,
                record_id: record_id@,
            },
        }
    }
}

pub open spec fn operations_view(ops: Seq<DnsOperation>) -> Seq<OperationView> {
    ops.map_values(|o: DnsOperation| o@)
}

} // verus!
