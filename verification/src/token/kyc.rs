//! KYC statuses and the token's simple compliance rules.
use vstd::prelude::*;
use crate::common::{StdFailure, text};
use crate::token::types::KycStatus;
use crate::token::state::{TokenState, TokenModel};

verus! {

/// The minimal transfer rule: a transfer moves a positive amount. The
/// parties are not consulted.
pub fn check_transfer_limit(from: &String, to: &String, amount: u128) -> (r: Result<(), StdFailure>)
    ensures
        match r {
            Ok(_) => amount > 0,
            Err(e) => amount == 0 && (e matches StdFailure::Generic(m) && m@ == "transfer amount must be > 0"@),
        },
{
    if amount == 0 {
        return Err(StdFailure::Generic(text("transfer amount must be > 0")));
    }
    Ok(())
}

impl TokenState {
    /// Records `status` as the KYC status of `addr`.
    pub fn set_kyc(&mut self, addr: String, status: KycStatus)
        requires
            old(self).wf(),
        ensures
            final(self).wf(),
            old(self).supply_consistent() ==> final(self).supply_consistent(),
            final(self)@ == (TokenModel { kyc: old(self)@.kyc.insert(addr@, status), ..old(self)@ }),
    {
        self.kyc.insert(addr, status);
    }

    /// Whether `addr` has an approved KYC status.
    pub fn is_approved(&self, addr: &String) -> (r: bool)
        requires
            self.wf(),
        ensures
            r == self@.kyc_approved(addr@),
    {
        match self.kyc.get(addr) {
            Some(s) => *s == KycStatus::Approved,
            None => false,
        }
    }

    /// Whether `addr` has an approved KYC status (the compliance rules'
    /// view of it).
    pub fn check_kyc_status(&self, addr: &String) -> (r: bool)
        requires
            self.wf(),
        ensures
            r == self@.kyc_approved(addr@),
    {
        self.is_approved(addr)
    }

    /// The KYC status of `addr`, `Pending` when none was set.
    pub fn query_status(&self, addr: &String) -> (r: KycStatus)
        requires
            self.wf(),
        ensures
            r == (if self@.kyc.contains_key(addr@) {
                self@.kyc[addr@]
            } else {
                KycStatus::Pending
            }),
    {
        match self.kyc.get(addr) {
            Some(s) => *s,
            None => KycStatus::Pending,
        }
    }
}

} // verus!
