use super::ProviderError;
use vstd::prelude::*;

verus! {

/// The provider's answer to a delete request.
#[derive(Debug, Clone, PartialEq, Default)]
pub struct DeleteResultRoot {
    pub result: DeleteResult,
}

/// The id of the record that the provider deleted.
#[derive(Debug, Clone, PartialEq, Default)]
pub struct DeleteResult {
    pub id: String,
}

impl DeleteResultRoot {
    /// A deletion succeeded only if the provider confirms the same record id.
    pub fn confirm(self, dns_record_id: &String) -> (r: Result<(), ProviderError>)
        ensures
            self.result.id@ == dns_record_id@ ==> r is Ok,
            self.result.id@ != dns_record_id@ ==> r == Err::<(), ProviderError>(
                ProviderError::IdMismatch {
                    expected: *dns_record_id,
                    confirmed: self.result.id,
                },
            ),
    {
        if self.result.id == *dns_record_id {
            Ok(())
        } else {
            Err(ProviderError::IdMismatch { expected: dns_record_id.clone(), confirmed: self.result.id })
        }
    }
}

} // verus!
