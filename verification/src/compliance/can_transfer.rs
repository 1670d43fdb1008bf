//! Whether a transfer is allowed: the sender's limit first, then, when a
//! country whitelist is set and an identity registry is linked, both
//! parties' countries, which the registry is asked for (the sender's, then
//! the recipient's).
use vstd::prelude::*;
use crate::common::{AddrInput, StdFailure, text};
use crate::compliance::msg::CanTransferResponse;
use crate::compliance::state::{ComplianceState, views};

verus! {

/// A question for the identity registry: `Identity { wallet }`, whose
/// answer carries the wallet's country.
#[derive(Debug)]
pub struct CountryQuery {
    pub registry: String,
    pub wallet: String,
}

/// Where the check stands while it waits for a country.
#[derive(Debug)]
pub enum CountryStage {
    /// Waiting for the sender's country; the recipient's comes next.
    Sender { registry: String, recipient: String },
    /// Waiting for the recipient's country.
    Recipient { sender_country: Option<String> },
}

/// What the check calls for next.
#[derive(Debug)]
pub enum TransferCheck {
    Ask { query: CountryQuery, stage: CountryStage },
    Done(Result<CanTransferResponse, StdFailure>),
}

pub open spec fn allowed(c: TransferCheck) -> bool {
    c matches TransferCheck::Done(Ok(r)) && r.allowed && r.reason is None
}

pub open spec fn denied(c: TransferCheck, reason: Seq<char>) -> bool {
    c matches TransferCheck::Done(Ok(r)) && !r.allowed && (r.reason matches Some(t) && t@ == reason)
}

pub open spec fn failed(c: TransferCheck, e: StdFailure) -> bool {
    c matches TransferCheck::Done(Err(x)) && x == e
}

/// The verdict once both countries are known.
pub open spec fn country_verdict(list: Option<Seq<Seq<char>>>, fc: Option<String>, tc: Option<String>, c: TransferCheck) -> bool {
    match (fc, tc) {
        (Some(f), Some(t)) => match list {
            Some(l) => if l.len() == 0 || (l.contains(f@) && l.contains(t@)) {
                allowed(c)
            } else {
                denied(c, "country not allowed"@)
            },
            None => allowed(c),
        },
        _ => denied(c, "missing country info"@),
    }
}

fn listed(list: &Vec<String>, a: &String) -> (r: bool)
    ensures
        r == views(list@).contains(a@),
{
    let mut i: usize = 0;
    while i < list.len()
        invariant
            i <= list@.len(),
            forall|j: int| 0 <= j < i ==> #[trigger] list@[j]@ != a@,
        decreases list@.len() - i,
    {
        if list[i] == *a {
            assert(views(list@)[i as int] == a@);
            return true;
        }
        i = i + 1;
    }
    proof {
        if views(list@).contains(a@) {
            let k = choose|k: int| 0 <= k < views(list@).len() && views(list@)[k] == a@;
            assert(list@[k]@ == a@);
        }
    }
    false
}

fn allow() -> (c: TransferCheck)
    ensures
        allowed(c),
{
    TransferCheck::Done(Ok(CanTransferResponse { allowed: true, reason: None }))
}

fn deny(reason: &str) -> (c: TransferCheck)
    ensures
        denied(c, reason@),
{
    TransferCheck::Done(Ok(CanTransferResponse { allowed: false, reason: Some(text(reason)) }))
}

impl ComplianceState {
    /// Starts checking whether `amount` may move from `from` to `to`.
    pub fn begin_can_transfer(&self, from: &AddrInput, to: &AddrInput, amount: u128) -> (c: TransferCheck)
        requires
            self.wf(),
        ensures
            if !from.valid() {
                failed(c, from.rejection->0)
            } else if !to.valid() {
                failed(c, to.rejection->0)
            } else if self@.limit_of(from.text@) matches Some(l) && amount > l {
                denied(c, "amount exceeds per-address limit"@)
            } else if (self@.allowed_countries matches Some(l) && l.len() > 0) && self@.identity_registry is Some {
                c matches TransferCheck::Ask {
                    query: CountryQuery { registry, wallet },
                    stage: CountryStage::Sender { registry: r2, recipient },
                } && registry@ == self@.identity_registry->0 && r2@ == registry@ && wallet@ == from.text@
                    && recipient@ == to.text@
            } else {
                allowed(c)
            },
    {
        let f = match from.check() {
            Ok(a) => a,
            Err(e) => return TransferCheck::Done(Err(e)),
        };
        let t = match to.check() {
            Ok(a) => a,
            Err(e) => return TransferCheck::Done(Err(e)),
        };
        let limit = match self.per_addr_limit.get(&f) {
            Some(l) => *l,
            None => None,
        };
        match limit {
            Some(l) => {
                if amount > l {
                    return deny("amount exceeds per-address limit");
                }
            },
            None => {},
        }
        match (&self.allowed_countries, &self.identity_registry) {
            (Some(list), Some(ir)) => if list.len() == 0 {
                allow()
            } else {
                TransferCheck::Ask {
                    query: CountryQuery { registry: ir.clone(), wallet: f },
                    stage: CountryStage::Sender { registry: ir.clone(), recipient: t },
                }
            },
            _ => allow(),
        }
    }

    /// Resumes the check from `stage` with the registry's answer: the
    /// wallet's country (if it has one), or the query's failure.
    pub fn resume_can_transfer(&self, stage: CountryStage, answer: Result<Option<String>, StdFailure>) -> (c: TransferCheck)
        ensures
            allowed(c) ==> match (stage, answer) {
                (CountryStage::Recipient { sender_country }, Ok(country)) => sender_country is Some && country is Some
                    && match (crate::compliance::state::opt_views(self.allowed_countries), sender_country, country) {
                    (Some(l), Some(fc), Some(tc)) => l.len() > 0 ==> l.contains(fc@) && l.contains(tc@),
                    _ => true,
                },
                _ => true,
            },
            match answer {
                Err(e) => failed(c, e),
                Ok(country) => match stage {
                    CountryStage::Sender { registry, recipient } => c matches TransferCheck::Ask {
                        query: CountryQuery { registry: r, wallet },
                        stage: CountryStage::Recipient { sender_country },
                    } && r@ == registry@ && wallet@ == recipient@ && sender_country == country,
                    CountryStage::Recipient { sender_country } => country_verdict(
                        crate::compliance::state::opt_views(self.allowed_countries),
                        sender_country,
                        country,
                        c,
                    ),
                },
            },
    {
        let country = match answer {
            Ok(c) => c,
            Err(e) => return TransferCheck::Done(Err(e)),
        };
        match stage {
            CountryStage::Sender { registry, recipient } => TransferCheck::Ask {
                query: CountryQuery { registry, wallet: recipient },
                stage: CountryStage::Recipient { sender_country: country },
            },
            CountryStage::Recipient { sender_country } => match (sender_country, country) {
                (Some(fc), Some(tc)) => match &self.allowed_countries {
                    Some(list) => {
                        if list.len() == 0 || (listed(list, &fc) && listed(list, &tc)) {
                            allow()
                        } else {
                            deny("country not allowed")
                        }
                    },
                    None => allow(),
                },
                _ => deny("missing country info"),
            },
        }
    }
}

/// With a non-empty country whitelist, a transfer is allowed only when both
/// the sender's and the recipient's countries are known and on the list.
pub proof fn lemma_whitelist_needs_both_countries(
    l: Seq<Seq<char>>,
    fc: Option<String>,
    tc: Option<String>,
    c: TransferCheck,
)
    requires
        l.len() > 0,
        country_verdict(Some(l), fc, tc, c),
        allowed(c),
    ensures
        fc matches Some(f) && l.contains(f@),
        tc matches Some(t) && l.contains(t@),
{
}

} // verus!
