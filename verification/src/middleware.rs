//! Access guard for the slave endpoints: an inbound request is admitted only
//! when the peer IP matches, exactly, one of the configured trusted
//! addresses. Matching is exact-string only, with no CIDR handling or
//! normalization; addresses supplied inconsistently will not match.

use vstd::prelude::*;

use crate::errors::SyncError;
use crate::text::str_eq;

verus! {

/// IP-based access control in front of every slave-side endpoint.
pub struct CheckIp {
    /// The allow-list of trusted peer addresses.
    pub master_address: Vec<String>,
}

impl CheckIp {
    /// Whether `ip` is one of the trusted addresses.
    pub open spec fn allows(self, ip: Seq<char>) -> bool {
        exists|i: int| 0 <= i < self.master_address@.len() && self.master_address@[i]@ == ip
    }

    /// Builds the guard from the configured allow-list.
    pub fn new(master_address: Vec<String>) -> (r: Self)
        ensures
            r.master_address@ == master_address@,
    {
        CheckIp { master_address }
    }

    /// Decides whether a request from `client_ip` may reach the handlers:
    /// true exactly when the address stands in the allow-list.
    pub fn is_allowed(&self, client_ip: &str) -> (r: bool)
        ensures
            r == self.allows(client_ip@),
    {
        let mut i: usize = 0;
        while i < self.master_address.len()
            invariant
                0 <= i <= self.master_address@.len(),
                forall|j: int| 0 <= j < i ==> self.master_address@[j]@ != client_ip@,
            decreases self.master_address@.len() - i,
        {
            if str_eq(self.master_address[i].as_str(), client_ip) {
                return true;
            }
            i += 1;
        }
        false
    }

    /// The guard's verdict as the handler chain sees it: a request from an
    /// allow-listed address passes, any other address is denied before a
    /// handler runs.
    pub fn check(&self, client_ip: &str) -> (r: Result<(), SyncError>)
        ensures
            self.allows(client_ip@) ==> r == Ok::<(), SyncError>(()),
            !self.allows(client_ip@) ==> r == Err::<(), SyncError>(SyncError::AccessDenied),
    {
        if self.is_allowed(client_ip) {
            Ok(())
        } else {
            Err(SyncError::AccessDenied)
        }
    }
}

} // verus!
