use super::{DnsOperationResponse, ProviderError};
use vstd::prelude::*;

verus! {

impl DnsOperationResponse {
    /// A creation succeeded exactly when the provider says so; otherwise its
    /// messages are the error.
    pub fn into_result(self) -> (r: Result<(), ProviderError>)
        ensures
            self.success ==> r is Ok,
            !self.success ==> r == Err::<(), ProviderError>(ProviderError::Rejected(self.errors)),
    {
        if self.success {
            Ok(())
        } else {
            Err(ProviderError::Rejected(self.errors))
        }
    }
}

} // verus!
