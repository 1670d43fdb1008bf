use cosmwasm_std::testing::MockApi;
use cw3643::common::{AddrInput, Ctx, StdFailure};
use cw3643::compliance::can_transfer::{CountryStage, TransferCheck};
use cw3643::compliance::module::ModuleExecuteMsg;
use cw3643::compliance::state::{ComplianceError, ComplianceState};

fn addr(name: &str) -> AddrInput {
    AddrInput { text: MockApi::default().addr_make(name).to_string(), rejection: None }
}

fn same(a: &AddrInput) -> AddrInput {
    AddrInput { text: a.text.clone(), rejection: None }
}

fn ctx(sender: &AddrInput) -> Ctx {
    Ctx { sender: same(sender), contract: "comp".to_string(), time: 0 }
}

fn verdict(c: TransferCheck) -> (bool, Option<String>) {
    match c {
        TransferCheck::Done(Ok(r)) => (r.allowed, r.reason),
        other => panic!("unexpected {:?}", other),
    }
}

#[test]
fn per_address_limit_blocks_large_amount_and_allows_small() {
    let owner = addr("owner");
    let alice = addr("alice");
    let bob = addr("bob");
    let (mut s, _) = ComplianceState::instantiate(&ctx(&owner), same(&owner), None).unwrap();
    s.set_per_address_limit(&ctx(&owner), same(&alice), Some(50)).unwrap();

    let resp = verdict(s.begin_can_transfer(&alice, &bob, 100));
    assert!(!resp.0);
    assert_eq!(resp.1.as_deref(), Some("amount exceeds per-address limit"));

    let resp_ok = verdict(s.begin_can_transfer(&alice, &bob, 25));
    assert!(resp_ok.0);
    assert_eq!(resp_ok.1, None);
}

#[test]
fn country_whitelist_asks_registry_for_both_parties() {
    let owner = addr("owner");
    let ir = addr("ir");
    let alice = addr("alice");
    let bob = addr("bob");
    let (mut s, _) = ComplianceState::instantiate(&ctx(&owner), same(&owner), Some(same(&ir))).unwrap();
    s.set_allowed_countries(&ctx(&owner), Some(vec!["840".to_string(), "276".to_string()])).unwrap();

    let first = s.begin_can_transfer(&alice, &bob, 5);
    let stage = match first {
        TransferCheck::Ask { query, stage } => {
            assert_eq!(query.registry, ir.text);
            assert_eq!(query.wallet, alice.text);
            stage
        },
        other => panic!("unexpected {:?}", other),
    };
    let second = s.resume_can_transfer(stage, Ok(Some("840".to_string())));
    let stage = match second {
        TransferCheck::Ask { query, stage } => {
            assert_eq!(query.wallet, bob.text);
            stage
        },
        other => panic!("unexpected {:?}", other),
    };
    let allowed = verdict(s.resume_can_transfer(stage, Ok(Some("276".to_string()))));
    assert_eq!(allowed, (true, None));

    let stage = CountryStage::Recipient { sender_country: Some("840".to_string()) };
    let denied = verdict(s.resume_can_transfer(stage, Ok(Some("250".to_string()))));
    assert_eq!(denied, (false, Some("country not allowed".to_string())));

    let stage = CountryStage::Recipient { sender_country: None };
    let missing = verdict(s.resume_can_transfer(stage, Ok(Some("840".to_string()))));
    assert_eq!(missing, (false, Some("missing country info".to_string())));

    let stage = CountryStage::Recipient { sender_country: Some("840".to_string()) };
    match s.resume_can_transfer(stage, Err(StdFailure::Generic("query failed".to_string()))) {
        TransferCheck::Done(Err(StdFailure::Generic(m))) => assert_eq!(m, "query failed"),
        other => panic!("unexpected {:?}", other),
    }
}

#[test]
fn empty_country_list_allows_every_country() {
    let owner = addr("owner");
    let ir = addr("ir");
    let alice = addr("alice");
    let bob = addr("bob");
    let (mut s, _) = ComplianceState::instantiate(&ctx(&owner), same(&owner), Some(same(&ir))).unwrap();
    s.set_allowed_countries(&ctx(&owner), Some(vec![])).unwrap();
    assert_eq!(verdict(s.begin_can_transfer(&alice, &bob, 5)), (true, None));
}

#[test]
fn can_transfer_rejects_bad_address_first() {
    let owner = addr("owner");
    let (s, _) = ComplianceState::instantiate(&ctx(&owner), same(&owner), None).unwrap();
    let bad = AddrInput { text: "x".to_string(), rejection: Some(StdFailure::Generic("invalid address".to_string())) };
    match s.begin_can_transfer(&bad, &owner, 1) {
        TransferCheck::Done(Err(StdFailure::Generic(m))) => assert_eq!(m, "invalid address"),
        other => panic!("unexpected {:?}", other),
    }
}

#[test]
fn modules_are_notified_in_address_order_and_names_stay_unique() {
    let owner = addr("owner");
    let m_a = addr("module_a");
    let m_b = addr("module_b");
    let (mut s, _) = ComplianceState::instantiate(&ctx(&owner), same(&owner), None).unwrap();
    s.add_module(&ctx(&owner), same(&m_a), "limits".to_string()).unwrap();
    s.add_module(&ctx(&owner), same(&m_b), "countries".to_string()).unwrap();

    match s.add_module(&ctx(&owner), same(&m_a), "other".to_string()) {
        Err(ComplianceError::CustomError { msg }) => assert_eq!(msg, "Module already exists"),
        other => panic!("unexpected {:?}", other),
    }
    let m_c = addr("module_c");
    match s.add_module(&ctx(&owner), same(&m_c), "limits".to_string()) {
        Err(ComplianceError::CustomError { msg }) => assert_eq!(msg, "Module name already exists"),
        other => panic!("unexpected {:?}", other),
    }
    match s.add_module(&ctx(&m_c), same(&m_c), "new".to_string()) {
        Err(ComplianceError::Unauthorized) => {},
        other => panic!("unexpected {:?}", other),
    }

    let resp = s.transferred("a".to_string(), "b".to_string(), 7);
    let mut expected = vec![m_a.text.clone(), m_b.text.clone()];
    expected.sort();
    let called: Vec<String> = resp.messages.iter().map(|m| m.module.clone()).collect();
    assert_eq!(called, expected);
    assert!(resp
        .messages
        .iter()
        .all(|m| m.msg == ModuleExecuteMsg::Transferred { from: "a".to_string(), to: "b".to_string(), amount: 7 }));
    assert!(resp.attributes.iter().any(|a| a.key == "amount" && a.value == "7"));

    s.remove_module(&ctx(&owner), same(&m_a)).unwrap();
    s.add_module(&ctx(&owner), same(&m_c), "limits".to_string()).unwrap();
    assert_eq!(s.config().module_count, 2);
    let info = s.module_info(&m_c).unwrap().info.unwrap();
    assert_eq!(info.name, "limits");
    assert!(s.module_info(&m_a).unwrap().info.is_none());
    let list = s.module_list().modules;
    assert_eq!(list.len(), 2);
}

#[test]
fn mint_and_burn_notices() {
    let owner = addr("owner");
    let m_a = addr("module_a");
    let (mut s, _) = ComplianceState::instantiate(&ctx(&owner), same(&owner), None).unwrap();
    s.add_module(&ctx(&owner), same(&m_a), "limits".to_string()).unwrap();
    let created = s.created("bob".to_string(), 12);
    assert_eq!(created.messages[0].msg, ModuleExecuteMsg::Created { to: "bob".to_string(), amount: 12 });
    let destroyed = s.destroyed("bob".to_string(), 3);
    assert_eq!(destroyed.messages[0].msg, ModuleExecuteMsg::Destroyed { from: "bob".to_string(), amount: 3 });
    assert!(destroyed.attributes.iter().any(|a| a.key == "action" && a.value == "destroyed"));
}
