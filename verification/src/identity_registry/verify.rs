//! Whether a wallet is verified. The registry looks the wallet up (locally,
//! else in the bound identity storage); when both a trusted issuers registry
//! and a claim topics registry are linked, the wallet's identity must hold,
//! for every required topic, a valid claim from an issuer trusted for it.
//! The questions to other contracts are handed to the caller one at a time,
//! and the check resumes with each answer.
use vstd::prelude::*;
use crate::common::{AddrInput, StdFailure, text, join, decimal, decimal_string};
use crate::identity_registry::state::{RegistryState, IsVerifiedResponse};

verus! {

/// A question the check asks another contract.
#[derive(Debug)]
pub enum VerifyQuery {
    /// `StoredIdentity { wallet }` to the identity storage at `storage`.
    StoredIdentity { storage: String, wallet: String },
    /// `RequiredTopics {}` to the claim topics registry at `registry`.
    RequiredTopics { registry: String },
    /// `TrustedIssuersForTopic { topic }` to the trusted issuers registry.
    TrustedIssuersForTopic { registry: String, topic: u32 },
    /// `HasValidClaim { topic, issuer_whitelist: Some(issuers), at_time: None }`
    /// to the identity contract at `identity`.
    HasValidClaim { identity: String, topic: u32, issuers: Vec<String> },
}

/// Where the check stands while it waits for an answer.
#[derive(Debug)]
pub enum VerifyStage {
    /// Waiting for the identity storage's record of the wallet.
    Stored,
    /// Waiting for the required topics.
    Topics { identity: String, trusted_issuers: String },
    /// Waiting for the issuers trusted for `topics[next]`.
    Issuers { identity: String, trusted_issuers: String, topics: Vec<u32>, next: usize },
    /// Waiting for whether the identity holds a valid claim for `topics[next]`.
    Claim { identity: String, trusted_issuers: String, topics: Vec<u32>, next: usize },
}

/// An answer. A failed query of the identity storage is `Stored(None)`;
/// otherwise `Stored` holds the identity address it gave, with the chain's
/// verdict on it.
#[derive(Debug)]
pub enum VerifyAnswer {
    Stored(Option<AddrInput>),
    Topics(Result<Vec<u32>, StdFailure>),
    Issuers(Result<Vec<String>, StdFailure>),
    Claim(Result<bool, StdFailure>),
}

/// What the check calls for next.
#[derive(Debug)]
pub enum Verification {
    /// Ask `query`, then resume from `stage` with the answer.
    Ask { query: VerifyQuery, stage: VerifyStage },
    /// The verdict, or the failure of a query that the check passes on.
    Done(Result<IsVerifiedResponse, StdFailure>),
}

/// The answer fits the stage it is given to.
pub open spec fn fits(stage: VerifyStage, answer: VerifyAnswer) -> bool {
    match stage {
        VerifyStage::Stored => answer is Stored,
        VerifyStage::Topics { .. } => answer is Topics,
        VerifyStage::Issuers { topics, next, .. } => answer is Issuers && next < topics@.len(),
        VerifyStage::Claim { topics, next, .. } => answer is Claim && next < topics@.len(),
    }
}

pub open spec fn verified(v: Verification) -> bool {
    v matches Verification::Done(Ok(r)) && r.verified && r.reason is None
}

pub open spec fn refused(v: Verification, reason: Seq<char>) -> bool {
    v matches Verification::Done(Ok(r)) && !r.verified && (r.reason matches Some(t) && t@ == reason)
}

pub open spec fn failed(v: Verification, e: StdFailure) -> bool {
    v matches Verification::Done(Err(x)) && x == e
}

pub open spec fn asks_topics(v: Verification, ctr: Seq<char>, identity: Seq<char>, tir: Seq<char>) -> bool {
    v matches Verification::Ask {
        query: VerifyQuery::RequiredTopics { registry },
        stage: VerifyStage::Topics { identity: id, trusted_issuers: t },
    } && registry@ == ctr && id@ == identity && t@ == tir
}

pub open spec fn asks_issuers(v: Verification, identity: Seq<char>, tir: Seq<char>, topics: Seq<u32>, i: int) -> bool {
    v matches Verification::Ask {
        query: VerifyQuery::TrustedIssuersForTopic { registry, topic },
        stage: VerifyStage::Issuers { identity: id, trusted_issuers: t, topics: ts, next },
    } && registry@ == tir && topic == topics[i] && id@ == identity && t@ == tir && ts@ == topics && next
        == i
}

pub open spec fn asks_claim(
    v: Verification,
    identity: Seq<char>,
    tir: Seq<char>,
    topics: Seq<u32>,
    i: int,
    issuers: Seq<String>,
) -> bool {
    v matches Verification::Ask {
        query: VerifyQuery::HasValidClaim { identity: who, topic, issuers: list },
        stage: VerifyStage::Claim { identity: id, trusted_issuers: t, topics: ts, next },
    } && who@ == identity && topic == topics[i] && list@ == issuers && id@ == identity && t@ == tir
        && ts@ == topics && next == i
}

/// How the check goes on once the wallet's identity is known: claim checks
/// when both registries are linked, else success.
pub open spec fn after_identity(s: RegistryState, identity: Seq<char>, v: Verification) -> bool {
    match (s.trusted_issuers, s.claim_topics) {
        (Some(tir), Some(ctr)) => if identity.len() == 0 {
            refused(v, "missing identity address"@)
        } else {
            asks_topics(v, ctr@, identity, tir@)
        },
        _ => verified(v),
    }
}

fn done_verified() -> (v: Verification)
    ensures
        verified(v),
{
    Verification::Done(Ok(IsVerifiedResponse { verified: true, reason: None }))
}

fn done_refused(reason: String) -> (v: Verification)
    ensures
        refused(v, reason@),
{
    Verification::Done(Ok(IsVerifiedResponse { verified: false, reason: Some(reason) }))
}

fn copy_topics(v: &Vec<u32>) -> (r: Vec<u32>)
    ensures
        r@ == v@,
{
    let mut out: Vec<u32> = Vec::new();
    let mut i: usize = 0;
    while i < v.len()
        invariant
            i <= v@.len(),
            out@ == v@.take(i as int),
        decreases v@.len() - i,
    {
        out.push(v[i]);
        assert(out@ =~= v@.take(i + 1));
        i = i + 1;
    }
    assert(v@.take(v@.len() as int) =~= v@);
    out
}

fn ask_issuers(identity: String, tir: String, topics: Vec<u32>, i: usize) -> (v: Verification)
    requires
        i < topics@.len(),
    ensures
        asks_issuers(v, identity@, tir@, topics@, i as int),
{
    let topic = topics[i];
    Verification::Ask {
        query: VerifyQuery::TrustedIssuersForTopic { registry: tir.clone(), topic },
        stage: VerifyStage::Issuers { identity, trusted_issuers: tir, topics, next: i },
    }
}

impl RegistryState {
    fn with_identity(&self, identity: String) -> (v: Verification)
        ensures
            after_identity(*self, identity@, v),
    {
        match (&self.trusted_issuers, &self.claim_topics) {
            (Some(tir), Some(ctr)) => {
                if identity.as_str().unicode_len() == 0 {
                    return done_refused(text("missing identity address"));
                }
                Verification::Ask {
                    query: VerifyQuery::RequiredTopics { registry: ctr.clone() },
                    stage: VerifyStage::Topics { identity, trusted_issuers: tir.clone() },
                }
            },
            _ => done_verified(),
        }
    }

    /// Starts checking whether `wallet` is verified.
    pub fn begin_is_verified(&self, wallet: &AddrInput) -> (v: Verification)
        requires
            self.wf(),
        ensures
            if !wallet.valid() {
                failed(v, wallet.rejection->0)
            } else if self@.contains_key(wallet.text@) {
                after_identity(*self, self@[wallet.text@].identity_addr@, v)
            } else {
                match self.identity_storage {
                    Some(irs) => v matches Verification::Ask {
                        query: VerifyQuery::StoredIdentity { storage, wallet: w },
                        stage: VerifyStage::Stored,
                    } && storage@ == irs@ && w@ == wallet.text@,
                    None => refused(v, "wallet not registered"@),
                }
            },
    {
        let w = match wallet.check() {
            Ok(a) => a,
            Err(e) => return Verification::Done(Err(e)),
        };
        match self.registry.get(&w) {
            Some(reg) => self.with_identity(reg.identity_addr.clone()),
            None => match &self.identity_storage {
                Some(irs) => Verification::Ask {
                    query: VerifyQuery::StoredIdentity { storage: irs.clone(), wallet: wallet.text.clone() },
                    stage: VerifyStage::Stored,
                },
                None => done_refused(text("wallet not registered")),
            },
        }
    }

    /// Resumes the check from `stage` with the answer to its question.
    pub fn resume_is_verified(&self, stage: VerifyStage, answer: VerifyAnswer) -> (v: Verification)
        requires
            fits(stage, answer),
        ensures
            match (stage, answer) {
                (VerifyStage::Stored, VerifyAnswer::Stored(None)) => refused(
                    v,
                    "wallet not registered in IR or IRS"@,
                ),
                (VerifyStage::Stored, VerifyAnswer::Stored(Some(id))) => if !id.valid() {
                    failed(v, id.rejection->0)
                } else {
                    after_identity(*self, id.text@, v)
                },
                (VerifyStage::Topics { identity, trusted_issuers }, VerifyAnswer::Topics(t)) => match t {
                    Err(e) => failed(v, e),
                    Ok(ts) => if ts@.len() == 0 {
                        verified(v)
                    } else {
                        asks_issuers(v, identity@, trusted_issuers@, ts@, 0)
                    },
                },
                (
                    VerifyStage::Issuers { identity, trusted_issuers, topics, next },
                    VerifyAnswer::Issuers(l),
                ) => match l {
                    Err(e) => failed(v, e),
                    Ok(list) => if list@.len() == 0 {
                        refused(v, "no trusted issuers for topic "@ + decimal(topics@[next as int] as nat))
                    } else {
                        asks_claim(v, identity@, trusted_issuers@, topics@, next as int, list@)
                    },
                },
                (
                    VerifyStage::Claim { identity, trusted_issuers, topics, next },
                    VerifyAnswer::Claim(c),
                ) => match c {
                    Err(e) => failed(v, e),
                    Ok(valid) => if !valid {
                        refused(v, "missing required claim for topic "@ + decimal(topics@[next as int] as nat))
                    } else if next + 1 == topics@.len() {
                        verified(v)
                    } else {
                        asks_issuers(v, identity@, trusted_issuers@, topics@, next + 1)
                    },
                },
                _ => false,
            },
    {
        match stage {
            VerifyStage::Stored => match answer {
                VerifyAnswer::Stored(None) => done_refused(text("wallet not registered in IR or IRS")),
                VerifyAnswer::Stored(Some(id)) => match id.check() {
                    Ok(a) => self.with_identity(a),
                    Err(e) => Verification::Done(Err(e)),
                },
                _ => Verification::Done(Err(StdFailure::Generic(text("")))),
            },
            VerifyStage::Topics { identity, trusted_issuers } => match answer {
                VerifyAnswer::Topics(Err(e)) => Verification::Done(Err(e)),
                VerifyAnswer::Topics(Ok(ts)) => {
                    if ts.len() == 0 {
                        done_verified()
                    } else {
                        ask_issuers(identity, trusted_issuers, ts, 0)
                    }
                },
                _ => Verification::Done(Err(StdFailure::Generic(text("")))),
            },
            VerifyStage::Issuers { identity, trusted_issuers, topics, next } => match answer {
                VerifyAnswer::Issuers(Err(e)) => Verification::Done(Err(e)),
                VerifyAnswer::Issuers(Ok(list)) => {
                    let topic = topics[next];
                    if list.len() == 0 {
                        let d = decimal_string(topic as u128);
                        done_refused(join("no trusted issuers for topic ", d.as_str()))
                    } else {
                        Verification::Ask {
                            query: VerifyQuery::HasValidClaim { identity: identity.clone(), topic, issuers: list },
                            stage: VerifyStage::Claim { identity, trusted_issuers, topics, next },
                        }
                    }
                },
                _ => Verification::Done(Err(StdFailure::Generic(text("")))),
            },
            VerifyStage::Claim { identity, trusted_issuers, topics, next } => match answer {
                VerifyAnswer::Claim(Err(e)) => Verification::Done(Err(e)),
                VerifyAnswer::Claim(Ok(valid)) => {
                    if !valid {
                        let d = decimal_string(topics[next] as u128);
                        done_refused(join("missing required claim for topic ", d.as_str()))
                    } else if topics.len() - next == 1 {
                        done_verified()
                    } else {
                        ask_issuers(identity, trusted_issuers, topics, next + 1)
                    }
                },
                _ => Verification::Done(Err(StdFailure::Generic(text("")))),
            },
        }
    }
}

} // verus!
