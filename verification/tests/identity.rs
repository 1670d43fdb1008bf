use cosmwasm_std::testing::MockApi;
use cw3643::claim_topics_registry::{TopicsError, TopicsState};
use cw3643::common::{AddrInput, Ctx, StdFailure};
use cw3643::identity_registry::state::{InstantiateMsg, RegistryError, RegistryMsg, RegistryState};
use cw3643::identity_registry::verify::{Verification, VerifyAnswer, VerifyQuery, VerifyStage};
use cw3643::identity_registry_storage::{StorageError, StorageState};
use cw3643::onchainid::{ClaimError, IdentityState};
use cw3643::trusted_issuers_registry::{IssuersError, IssuersState};

fn addr(name: &str) -> AddrInput {
    AddrInput { text: MockApi::default().addr_make(name).to_string(), rejection: None }
}

fn same(a: &AddrInput) -> AddrInput {
    AddrInput { text: a.text.clone(), rejection: None }
}

fn ctx(sender: &AddrInput) -> Ctx {
    Ctx { sender: same(sender), contract: "ir_contract".to_string(), time: 1000 }
}

fn bad() -> AddrInput {
    AddrInput { text: "not an address".to_string(), rejection: Some(StdFailure::Generic("invalid".to_string())) }
}

fn outcome(v: Verification) -> (bool, Option<String>) {
    match v {
        Verification::Done(Ok(r)) => (r.verified, r.reason),
        other => panic!("unexpected {:?}", other),
    }
}

fn registry(owner: &AddrInput, tir: Option<&AddrInput>, ctr: Option<&AddrInput>, irs: Option<&AddrInput>) -> RegistryState {
    let msg = InstantiateMsg {
        owner: same(owner),
        trusted_issuers: tir.map(same),
        claim_topics: ctr.map(same),
        identity_storage: irs.map(same),
    };
    RegistryState::instantiate(&ctx(owner), msg).unwrap().0
}

#[test]
fn unregistered_wallet_is_not_verified() {
    let owner = addr("owner");
    let s = registry(&owner, None, None, None);
    let alice = addr("alice");
    assert_eq!(outcome(s.begin_is_verified(&alice)), (false, Some("wallet not registered".to_string())));
    match s.begin_is_verified(&bad()) {
        Verification::Done(Err(StdFailure::Generic(m))) => assert_eq!(m, "invalid"),
        other => panic!("unexpected {:?}", other),
    }
}

#[test]
fn registration_alone_verifies_without_registries() {
    let owner = addr("owner");
    let mut s = registry(&owner, None, None, None);
    let alice = addr("alice");
    let id = addr("alice_id");
    s.register_identity(&ctx(&owner), same(&alice), same(&id), Some("840".to_string())).unwrap();
    assert_eq!(outcome(s.begin_is_verified(&alice)), (true, None));
    assert!(s.contains(&alice).unwrap().contains);
    let info = s.identity(&alice).unwrap();
    assert_eq!(info.identity_addr, Some(id.text.clone()));
    assert_eq!(info.country, Some("840".to_string()));
    match s.register_identity(&ctx(&alice), same(&alice), same(&id), None) {
        Err(RegistryError::Unauthorized) => {},
        other => panic!("unexpected {:?}", other),
    }
    s.unregister_identity(&ctx(&owner), same(&alice)).unwrap();
    assert!(!s.contains(&alice).unwrap().contains);
}

#[test]
fn claims_decide_verification_topic_by_topic() {
    let owner = addr("owner");
    let tir = addr("tir");
    let ctr = addr("ctr");
    let mut s = registry(&owner, Some(&tir), Some(&ctr), None);
    let alice = addr("alice");
    let id = addr("alice_id");
    s.register_identity(&ctx(&owner), same(&alice), same(&id), None).unwrap();

    let stage = match s.begin_is_verified(&alice) {
        Verification::Ask { query: VerifyQuery::RequiredTopics { registry }, stage } => {
            assert_eq!(registry, ctr.text);
            stage
        },
        other => panic!("unexpected {:?}", other),
    };
    let stage = match s.resume_is_verified(stage, VerifyAnswer::Topics(Ok(vec![7, 9]))) {
        Verification::Ask { query: VerifyQuery::TrustedIssuersForTopic { registry, topic }, stage } => {
            assert_eq!(registry, tir.text);
            assert_eq!(topic, 7);
            stage
        },
        other => panic!("unexpected {:?}", other),
    };
    let issuer = addr("issuer");
    let stage = match s.resume_is_verified(stage, VerifyAnswer::Issuers(Ok(vec![issuer.text.clone()]))) {
        Verification::Ask { query: VerifyQuery::HasValidClaim { identity, topic, issuers }, stage } => {
            assert_eq!(identity, id.text);
            assert_eq!(topic, 7);
            assert_eq!(issuers, vec![issuer.text.clone()]);
            stage
        },
        other => panic!("unexpected {:?}", other),
    };
    let next = s.resume_is_verified(stage, VerifyAnswer::Claim(Ok(true)));
    let stage = match next {
        Verification::Ask { query: VerifyQuery::TrustedIssuersForTopic { topic, .. }, stage } => {
            assert_eq!(topic, 9);
            stage
        },
        other => panic!("unexpected {:?}", other),
    };
    assert_eq!(
        outcome(s.resume_is_verified(stage, VerifyAnswer::Issuers(Ok(vec![])))),
        (false, Some("no trusted issuers for topic 9".to_string()))
    );

    let last = VerifyStage::Claim {
        identity: id.text.clone(),
        trusted_issuers: tir.text.clone(),
        topics: vec![7, 9],
        next: 1,
    };
    assert_eq!(outcome(s.resume_is_verified(last, VerifyAnswer::Claim(Ok(true)))), (true, None));
    let last = VerifyStage::Claim {
        identity: id.text.clone(),
        trusted_issuers: tir.text.clone(),
        topics: vec![7, 9],
        next: 1,
    };
    assert_eq!(
        outcome(s.resume_is_verified(last, VerifyAnswer::Claim(Ok(false)))),
        (false, Some("missing required claim for topic 9".to_string()))
    );
    let topics = VerifyStage::Topics { identity: id.text.clone(), trusted_issuers: tir.text.clone() };
    assert_eq!(outcome(s.resume_is_verified(topics, VerifyAnswer::Topics(Ok(vec![])))), (true, None));
}

#[test]
fn identity_storage_fallback() {
    let owner = addr("owner");
    let irs = addr("irs");
    let s = registry(&owner, None, None, Some(&irs));
    let bob = addr("bob");
    let stage = match s.begin_is_verified(&bob) {
        Verification::Ask { query: VerifyQuery::StoredIdentity { storage, wallet }, stage } => {
            assert_eq!(storage, irs.text);
            assert_eq!(wallet, bob.text);
            stage
        },
        other => panic!("unexpected {:?}", other),
    };
    assert_eq!(
        outcome(s.resume_is_verified(stage, VerifyAnswer::Stored(None))),
        (false, Some("wallet not registered in IR or IRS".to_string()))
    );
    let found = s.resume_is_verified(VerifyStage::Stored, VerifyAnswer::Stored(Some(addr("bob_id"))));
    assert_eq!(outcome(found), (true, None));
}

#[test]
fn registry_updates_and_binding() {
    let owner = addr("owner");
    let mut s = registry(&owner, None, None, None);
    let alice = addr("alice");
    match s.update_country(&ctx(&owner), same(&alice), Some("1".to_string())) {
        Err(RegistryError::NotRegistered) => {},
        other => panic!("unexpected {:?}", other),
    }
    s.register_identity(&ctx(&owner), same(&alice), addr("id1"), None).unwrap();
    let resp = s.update_country(&ctx(&owner), same(&alice), Some("276".to_string())).unwrap();
    assert!(resp.attributes.iter().any(|a| a.key == "old_country" && a.value == "none"));
    assert!(resp.attributes.iter().any(|a| a.key == "new_country" && a.value == "276"));
    let resp = s.update_identity(&ctx(&owner), same(&alice), addr("id2")).unwrap();
    assert!(resp.attributes.iter().any(|a| a.key == "old_identity" && a.value == addr("id1").text));
    assert_eq!(s.identity(&alice).unwrap().identity_addr, Some(addr("id2").text));

    let irs = addr("irs");
    let resp = s.bind_identity_storage(&ctx(&owner), Some(same(&irs))).unwrap();
    match &resp.messages[0] {
        RegistryMsg::BindIdentityRegistry { storage, registry } => {
            assert_eq!(storage, &irs.text);
            assert_eq!(registry, "ir_contract");
        },
    }
    let resp = s.bind_identity_storage(&ctx(&owner), Some(bad())).unwrap();
    assert!(resp.messages.is_empty());
    assert_eq!(s.config().identity_storage, None);
    s.update_trusted_issuers(&ctx(&owner), Some(addr("tir"))).unwrap();
    assert_eq!(s.trusted_issuers_registry().address, Some(addr("tir").text));
}

#[test]
fn storage_keeps_identities_for_bound_registries() {
    let owner = addr("owner");
    let (mut s, _) = StorageState::instantiate(&ctx(&owner), same(&owner)).unwrap();
    let ir = addr("ir");
    let alice = addr("alice");
    match s.add_identity(&ctx(&ir), same(&alice), addr("id"), 840) {
        Err(StorageError::Unauthorized) => {},
        other => panic!("unexpected {:?}", other),
    }
    s.bind_registry(&ctx(&owner), same(&ir)).unwrap();
    s.bind_registry(&ctx(&owner), same(&ir)).unwrap();
    assert_eq!(s.linked_registries().registries, vec![ir.text.clone()]);
    s.add_identity(&ctx(&ir), same(&alice), addr("id"), 840).unwrap();
    match s.add_identity(&ctx(&ir), same(&alice), addr("id"), 840) {
        Err(StorageError::IdentityAlreadyStored) => {},
        other => panic!("unexpected {:?}", other),
    }
    let resp = s.modify_country(&ctx(&ir), same(&alice), 276).unwrap();
    assert!(resp.attributes.iter().any(|a| a.key == "country" && a.value == "276"));
    assert_eq!(s.stored_country(&alice).unwrap().country, 276);
    assert_eq!(s.stored_identity(&alice).unwrap().identity, addr("id").text);
    s.remove_identity(&ctx(&owner), same(&alice)).unwrap();
    match s.remove_identity(&ctx(&owner), same(&alice)) {
        Err(StorageError::IdentityNotStored) => {},
        other => panic!("unexpected {:?}", other),
    }
    match s.stored_identity(&alice) {
        Err(StdFailure::NotFound(_)) => {},
        other => panic!("unexpected {:?}", other),
    }
    s.unbind_registry(&ctx(&owner), same(&ir)).unwrap();
    match s.unbind_registry(&ctx(&owner), same(&ir)) {
        Err(StorageError::RegistryNotBound) => {},
        other => panic!("unexpected {:?}", other),
    }
}

#[test]
fn storage_binds_at_most_300_registries() {
    let owner = addr("owner");
    let (mut s, _) = StorageState::instantiate(&ctx(&owner), same(&owner)).unwrap();
    for i in 0..300 {
        s.bind_registry(&ctx(&owner), addr(&format!("reg{}", i))).unwrap();
    }
    match s.bind_registry(&ctx(&owner), addr("one_more")) {
        Err(StorageError::TooManyRegistries) => {},
        other => panic!("unexpected {:?}", other),
    }
    assert_eq!(s.linked_registries().registries.len(), 300);
}

#[test]
fn claims_count_until_expired_or_revoked() {
    let owner = addr("owner");
    let issuer = addr("issuer");
    let (mut s, _) = IdentityState::instantiate(&ctx(&owner), same(&owner)).unwrap();
    match s.add_claim(&ctx(&owner), 7, same(&issuer), None, Some(2000)) {
        Err(ClaimError::Unauthorized) => {},
        other => panic!("unexpected {:?}", other),
    }
    let resp = s.add_claim(&ctx(&issuer), 7, same(&issuer), Some("kyc".to_string()), Some(2000)).unwrap();
    assert!(resp.attributes.iter().any(|a| a.key == "id" && a.value == "1"));
    assert!(s.has_valid_claim(&ctx(&owner), 7, None, None).valid);
    assert!(s.has_valid_claim(&ctx(&owner), 7, Some(vec![issuer.text.clone()]), Some(1999)).valid);
    assert!(!s.has_valid_claim(&ctx(&owner), 7, None, Some(2000)).valid);
    assert!(!s.has_valid_claim(&ctx(&owner), 7, Some(vec!["someone".to_string()]), None).valid);
    assert!(!s.has_valid_claim(&ctx(&owner), 8, None, None).valid);
    assert_eq!(s.claims_by_topic(7).len(), 1);
    assert_eq!(s.claims_by_topic(7)[0].issued_at, 1000);
    match s.revoke_claim(&ctx(&owner), 8, 1) {
        Err(ClaimError::Std(StdFailure::NotFound(_))) => {},
        other => panic!("unexpected {:?}", other),
    }
    s.revoke_claim(&ctx(&owner), 7, 1).unwrap();
    assert!(!s.has_valid_claim(&ctx(&owner), 7, None, None).valid);
    assert!(s.claims_by_topic(7)[0].revoked);
}

#[test]
fn claim_topics_are_limited() {
    let owner = addr("owner");
    let (mut s, _) = TopicsState::instantiate(&ctx(&owner), owner.text.clone(), vec![1, 2]).unwrap();
    assert_eq!(s.required_topics().topics, vec![1, 2]);
    match TopicsState::instantiate(&ctx(&owner), owner.text.clone(), (1..=16).collect()) {
        Err(TopicsError::TooManyTopics { max }) => assert_eq!(max, 15),
        Err(other) => panic!("unexpected {:?}", other),
        Ok(_) => panic!("sixteen topics accepted"),
    }
    match s.set_required_topics(&ctx(&owner), (0..16).collect()) {
        Err(TopicsError::TooManyTopics { max }) => assert_eq!(max, 15),
        other => panic!("unexpected {:?}", other),
    }
    s.set_required_topics(&ctx(&owner), (0..15).collect()).unwrap();
    assert_eq!(s.required_topics().topics.len(), 15);
    s.update_owner(&ctx(&owner), "someone".to_string()).unwrap();
    match s.set_required_topics(&ctx(&owner), vec![]) {
        Err(TopicsError::Unauthorized) => {},
        other => panic!("unexpected {:?}", other),
    }
}

#[test]
fn trusted_issuers_index_follows_topics() {
    let owner = addr("owner");
    let (mut s, _) = IssuersState::instantiate(&ctx(&owner), same(&owner)).unwrap();
    let a = addr("issuer_a");
    let b = addr("issuer_b");
    s.add_issuer(&ctx(&owner), same(&a), vec![1, 2]).unwrap();
    s.add_issuer(&ctx(&owner), same(&b), vec![2]).unwrap();
    assert_eq!(s.trusted_issuers_for_topic(2).issuers, vec![a.text.clone(), b.text.clone()]);
    s.update_issuer_topics(&ctx(&owner), same(&a), vec![3]).unwrap();
    assert_eq!(s.trusted_issuers_for_topic(1).issuers, Vec::<String>::new());
    assert_eq!(s.trusted_issuers_for_topic(2).issuers, vec![b.text.clone()]);
    assert_eq!(s.trusted_issuers_for_topic(3).issuers, vec![a.text.clone()]);
    assert!(s.is_issuer_for_topic(&a, 3).unwrap().allowed);
    assert!(!s.is_issuer_for_topic(&a, 1).unwrap().allowed);
    s.remove_issuer(&ctx(&owner), same(&b)).unwrap();
    assert_eq!(s.trusted_issuers_for_topic(2).issuers, Vec::<String>::new());
    assert_eq!(s.all_issuers().issuers.len(), 1);
    match s.add_issuer(&ctx(&owner), same(&b), vec![]) {
        Err(IssuersError::EmptyTopics) => {},
        other => panic!("unexpected {:?}", other),
    }
    match s.add_issuer(&ctx(&owner), same(&b), (0..16).collect()) {
        Err(IssuersError::TooManyTopicsPerIssuer { max }) => assert_eq!(max, 15),
        other => panic!("unexpected {:?}", other),
    }
    assert_eq!(s.issuer_topics(&b).unwrap().topics, Vec::<u32>::new());
    match s.add_issuer(&ctx(&owner), same(&a), vec![7]) {
        Err(IssuersError::IssuerAlreadyTrusted { issuer }) => assert_eq!(issuer, a.text),
        other => panic!("unexpected {:?}", other),
    }
    assert_eq!(s.trusted_issuers_for_topic(7).issuers, Vec::<String>::new());
    assert_eq!(s.issuer_topics(&a).unwrap().topics, vec![3]);
    match s.update_issuer_topics(&ctx(&owner), same(&b), vec![4]) {
        Err(IssuersError::IssuerNotFound { issuer }) => assert_eq!(issuer, b.text),
        other => panic!("unexpected {:?}", other),
    }
    assert_eq!(s.all_issuers().issuers.len(), 1);
}

#[test]
fn trusted_issuers_are_limited() {
    let owner = addr("owner");
    let (mut s, _) = IssuersState::instantiate(&ctx(&owner), same(&owner)).unwrap();
    for i in 0..50 {
        s.add_issuer(&ctx(&owner), addr(&format!("issuer{}", i)), vec![1]).unwrap();
    }
    match s.add_issuer(&ctx(&owner), addr("late"), vec![1]) {
        Err(IssuersError::TooManyIssuers { max }) => assert_eq!(max, 50),
        other => panic!("unexpected {:?}", other),
    }
    assert_eq!(s.trusted_issuers_for_topic(1).issuers.len(), 50);
}
