use super::{Message, ProviderError};
use vstd::prelude::*;

verus! {

/// The provider's answer to a zone listing.
#[derive(Debug, Clone, PartialEq, Eq, Hash, Default)]
pub struct ListZones {
    pub errors: Vec<Message>,
    pub success: bool,
    pub result: Vec<Zone>,
}

impl ListZones {
    /// The listed zones when the provider reports success, its messages
    /// otherwise.
    pub fn into_result(self) -> (r: Result<Vec<Zone>, ProviderError>)
        ensures
            self.success ==> r == Ok::<Vec<Zone>, ProviderError>(self.result),
            !self.success ==> r == Err::<Vec<Zone>, ProviderError>(
                ProviderError::Rejected(self.errors),
            ),
    {
        if self.success {
            Ok(self.result)
        } else {
            Err(ProviderError::Rejected(self.errors))
        }
    }
}

/// Paging information of a zone listing.
#[derive(Debug, Clone, PartialEq, Eq, Hash, Default)]
pub struct ListZoneInfo {
    pub count: Option<i64>,
    pub page: Option<i64>,
    pub per_page: Option<i64>,
    pub total_count: Option<i64>,
}

/// A provider zone: its id and its domain name.
#[derive(Debug, Clone, PartialEq, Eq, Hash, Default)]
pub struct Zone {
    pub id: String,
    pub name: String,
}

/// The account that holds a zone.
#[derive(Debug, Clone, PartialEq, Eq, Hash, Default)]
pub struct Account {
    pub id: Option<String>,
    pub name: Option<String>,
}

/// Provider metadata of a zone.
#[derive(Debug, Clone, PartialEq, Eq, Hash, Default)]
pub struct Meta {
    pub cdn_only: Option<bool>,
    pub custom_certificate_quota: Option<i64>,
    pub dns_only: Option<bool>,
    pub foundation_dns: Option<bool>,
    pub page_rule_quota: Option<i64>,
    pub phishing_detected: Option<bool>,
    pub step: Option<i64>,
}

/// The owner of a zone.
#[derive(Debug, Clone, PartialEq, Eq, Hash, Default)]
pub struct Owner {
    pub id: Option<String>,
    pub name: Option<String>,
    pub type_field: Option<String>,
}

} // verus!
