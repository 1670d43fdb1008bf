use cosmwasm_std::testing::MockApi;
use cw3643::common::{AddrInput, Attribute, Ctx, Event, StdFailure};
use cw3643::factory::deploy::{extract_contract_address, ConfigUpdate, CreateTokenMsg};
use cw3643::factory::state::{ClaimDetails, FactoryError, FactoryState, InstantiateBody, InstantiateMsg};

fn addr(name: &str) -> AddrInput {
    AddrInput { text: MockApi::default().addr_make(name).to_string(), rejection: None }
}

fn same(a: &AddrInput) -> AddrInput {
    AddrInput { text: a.text.clone(), rejection: None }
}

fn ctx(sender: &AddrInput) -> Ctx {
    Ctx { sender: same(sender), contract: "factory".to_string(), time: 0 }
}

fn instantiated(admin: &AddrInput) -> FactoryState {
    let msg = InstantiateMsg {
        token_code_id: 5,
        ctr_code_id: 1,
        tir_code_id: 2,
        compliance_code_id: 4,
        ir_code_id: 3,
        identity_registry_storage: addr("irs"),
        onchainid_code_id: 6,
        default_owner: addr("owner"),
        default_issuer: addr("issuer"),
        default_controller: addr("controller"),
    };
    FactoryState::instantiate(&ctx(admin), msg).unwrap().0
}

fn create(admin: &AddrInput) -> CreateTokenMsg {
    CreateTokenMsg {
        reference_id: "REF-1".to_string(),
        name: "Building".to_string(),
        symbol: "BLD".to_string(),
        decimals: 6,
        description: "a building".to_string(),
        legal_owner: same(admin),
        metadata: None,
        initial_supply: None,
        initial_holder: None,
        minting_cap: 1_000,
        claim_details: ClaimDetails { claim_topics: vec![7], issuers: vec![], issuer_claims: vec![] },
    }
}

fn deployed(address: &str) -> Result<Vec<Event>, String> {
    Ok(vec![
        Event { ty: "wasm".to_string(), attributes: vec![] },
        Event {
            ty: "instantiate".to_string(),
            attributes: vec![
                Attribute { key: "code_id".to_string(), value: "1".to_string() },
                Attribute { key: "_contract_address".to_string(), value: address.to_string() },
            ],
        },
    ])
}

#[test]
fn a_token_is_deployed_in_five_steps() {
    let admin = addr("admin");
    let mut s = instantiated(&admin);
    let resp = s.create_token(&ctx(&admin), 42, create(&admin)).unwrap();
    assert_eq!(resp.messages[0].label, "CTR-1");
    match &resp.messages[0].body {
        InstantiateBody::ClaimTopics { required_topics, .. } => assert_eq!(required_topics, &vec![7]),
        other => panic!("unexpected {:?}", other),
    }
    let r = s.reply(1, deployed("ctr1")).unwrap();
    assert_eq!(r.messages[0].label, "TIR-1");
    let r = s.reply(2, deployed("tir1")).unwrap();
    match &r.messages[0].body {
        InstantiateBody::IdentityRegistry { trusted_issuers, claim_topics, .. } => {
            assert_eq!(trusted_issuers.as_deref(), Some("tir1"));
            assert_eq!(claim_topics.as_deref(), Some("ctr1"));
        },
        other => panic!("unexpected {:?}", other),
    }
    let r = s.reply(3, deployed("ir1")).unwrap();
    assert!(r.attributes.iter().any(|a| a.key == "action" && a.value == "bind_ir_to_irs_required"));
    let r = s.reply(4, deployed("comp1")).unwrap();
    match &r.messages[0].body {
        InstantiateBody::Token { decimals, minting_cap, identity_registry, compliance, .. } => {
            assert_eq!(*decimals, 6);
            assert_eq!(*minting_cap, 1_000);
            assert_eq!(identity_registry.as_deref(), Some("ir1"));
            assert_eq!(compliance.as_deref(), Some("comp1"));
        },
        other => panic!("unexpected {:?}", other),
    }
    let tok = addr("token1");
    let r = s.reply(5, deployed(&tok.text)).unwrap();
    assert!(r.attributes.iter().any(|a| a.key == "asset_id" && a.value == "1"));
    let info = s.token(1).unwrap();
    assert_eq!(info.contract_address, tok.text);
    assert_eq!(info.deployed_at, 42);
    assert_eq!(info.claim_topics_registry, "ctr1");
    assert_eq!(s.asset_id_by_contract(&tok).unwrap().asset_id, 1);
    assert!(s.pending.is_none());
    match s.reply(5, deployed("again")) {
        Err(FactoryError::Std(StdFailure::NotFound(_))) => {},
        other => panic!("unexpected {:?}", other),
    }
}

#[test]
fn replies_that_fail_are_refused() {
    let admin = addr("admin");
    let mut s = instantiated(&admin);
    s.create_token(&ctx(&admin), 1, create(&admin)).unwrap();
    match s.reply(9, deployed("x")) {
        Err(FactoryError::Std(StdFailure::Generic(m))) => assert_eq!(m, "Unknown reply ID"),
        other => panic!("unexpected {:?}", other),
    }
    match s.reply(1, Err("out of gas".to_string())) {
        Err(FactoryError::Std(StdFailure::Generic(m))) => assert_eq!(m, "Submessage failed: out of gas"),
        other => panic!("unexpected {:?}", other),
    }
    match extract_contract_address(&Ok(vec![Event { ty: "wasm".to_string(), attributes: vec![] }])) {
        Err(FactoryError::Std(StdFailure::Generic(m))) => assert_eq!(m, "Contract address not found in reply"),
        other => panic!("unexpected {:?}", other),
    }
    let first_without = Ok(vec![
        Event { ty: "instantiate".to_string(), attributes: vec![] },
        Event {
            ty: "instantiate".to_string(),
            attributes: vec![Attribute { key: "_contract_address".to_string(), value: "late".to_string() }],
        },
    ]);
    assert!(extract_contract_address(&first_without).is_err());
}

#[test]
fn only_the_admin_creates_tokens_and_pages_list_them() {
    let admin = addr("admin");
    let mut s = instantiated(&admin);
    let other = addr("other");
    match s.create_token(&ctx(&other), 1, create(&admin)) {
        Err(FactoryError::Unauthorized) => {},
        other => panic!("unexpected {:?}", other),
    }
    for i in 0..3 {
        s.create_token(&ctx(&admin), 1, create(&admin)).unwrap();
        for (id, name) in [(1, "ctr"), (2, "tir"), (3, "ir"), (4, "comp")] {
            s.reply(id, deployed(&format!("{}{}", name, i))).unwrap();
        }
        s.reply(5, deployed(&addr(&format!("token{}", i)).text)).unwrap();
    }
    assert_eq!(s.all_tokens(None, None).tokens.len(), 3);
    let page = s.all_tokens(Some(1), Some(1)).tokens;
    assert_eq!(page.len(), 1);
    assert_eq!(page[0].asset_id, 2);
}

#[test]
fn config_updates_validate_addresses() {
    let admin = addr("admin");
    let mut s = instantiated(&admin);
    let upd = ConfigUpdate {
        token_code_id: Some(50),
        ctr_code_id: None,
        tir_code_id: None,
        compliance_code_id: None,
        ir_code_id: None,
        identity_registry_storage: None,
        onchainid_code_id: None,
        default_owner: Some(AddrInput { text: "bad".to_string(), rejection: Some(StdFailure::Generic("bad address".to_string())) }),
        default_issuer: None,
        default_controller: None,
    };
    match s.update_config(&ctx(&admin), upd) {
        Err(FactoryError::Std(StdFailure::Generic(m))) => assert_eq!(m, "bad address"),
        other => panic!("unexpected {:?}", other),
    }
    assert_eq!(s.config_info().token_code_id, 5);
    let upd = ConfigUpdate {
        token_code_id: Some(50),
        ctr_code_id: None,
        tir_code_id: None,
        compliance_code_id: None,
        ir_code_id: None,
        identity_registry_storage: None,
        onchainid_code_id: None,
        default_owner: Some(addr("owner2")),
        default_issuer: None,
        default_controller: None,
    };
    s.update_config(&ctx(&admin), upd).unwrap();
    assert_eq!(s.config_info().token_code_id, 50);
    assert_eq!(s.config_info().default_owner, addr("owner2").text);
    let new_admin = addr("admin2");
    s.update_admin(&ctx(&admin), same(&new_admin)).unwrap();
    assert_eq!(s.config_info().admin, new_admin.text);
}
