use cosmwasm_std::testing::MockApi;
use cw3643::common::{AddrInput, Ctx};
use cw3643::token::checks::{Checks, Progress};
use cw3643::token::state::{InstantiateMsg, TokenState, ValidatorItems};
use cw3643::token::types::{ContractError, InitialBalance, KycStatus, TokenResponse};

fn addr(name: &str) -> AddrInput {
    AddrInput { text: MockApi::default().addr_make(name).to_string(), rejection: None }
}

fn ctx(sender: &AddrInput) -> Ctx {
    Ctx { sender: AddrInput { text: sender.text.clone(), rejection: None }, contract: "token".to_string(), time: 1_700_000_000 }
}

fn inst(owner: &AddrInput, issuer: &AddrInput, controller: &AddrInput, initial: Vec<(AddrInput, u128)>) -> InstantiateMsg {
    InstantiateMsg {
        name: "RWA".to_string(),
        symbol: "RWA".to_string(),
        decimals: 6,
        initial_balances: initial
            .into_iter()
            .map(|(address, amount)| InitialBalance { address, amount })
            .collect(),
        issuer: AddrInput { text: issuer.text.clone(), rejection: None },
        controller: AddrInput { text: controller.text.clone(), rejection: None },
        owner: AddrInput { text: owner.text.clone(), rejection: None },
        cap: None,
        minting_cap: 1_000_000,
        require_kyc_for_transfer: None,
        identity_registry: None,
        compliance: None,
    }
}

fn same(a: &AddrInput) -> AddrInput {
    AddrInput { text: a.text.clone(), rejection: None }
}

/// Runs checks that ask no other contract.
fn run_local(s: &TokenState, checks: &mut Checks) -> Result<(), ContractError> {
    match s.advance(checks, None) {
        Progress::Passed => Ok(()),
        Progress::Refused(e) => Err(e),
        Progress::Ask(q) => panic!("unexpected question {:?}", q),
    }
}

fn transfer(s: &mut TokenState, c: &Ctx, to: &AddrInput, amount: u128) -> Result<TokenResponse, ContractError> {
    let mut checks = s.begin_transfer(c, to, amount)?;
    run_local(s, &mut checks)?;
    s.finish_transfer(c, &checks, to, amount)
}

fn mint(s: &mut TokenState, c: &Ctx, to: &AddrInput, amount: u128) -> Result<TokenResponse, ContractError> {
    let mut checks = s.begin_mint(c, to, amount)?;
    run_local(s, &mut checks)?;
    s.finish_mint(c, &checks, to, amount)
}

#[test]
fn migrate_initializes_validator_keys() {
    let mut items = ValidatorItems { identity_registry: None, compliance: None };
    let res = items.migrate();
    assert!(res.attributes.iter().any(|a| a.key == "action" && a.value == "migrate"));
    assert!(items.identity_registry.is_some());
    assert!(items.compliance.is_some());
    assert!(items.identity_registry.unwrap().is_none());
    assert!(items.compliance.unwrap().is_none());
}

#[test]
fn agent_freeze_and_replace_wallet_flow() {
    let owner = addr("owner");
    let deployer = addr("deployer");
    let alice = addr("alice");
    let bob = addr("bob");
    let agent = addr("agent");
    let (mut s, _) =
        TokenState::instantiate(inst(&owner, &owner, &owner, vec![(same(&alice), 100)]), &ctx(&deployer)).unwrap();

    s.add_agent(&ctx(&owner), same(&agent)).unwrap();
    s.set_kyc_status(&ctx(&agent), same(&alice), KycStatus::Approved).unwrap();
    s.set_kyc_status(&ctx(&agent), same(&bob), KycStatus::Approved).unwrap();

    s.freeze(&ctx(&agent), same(&alice)).unwrap();
    let res = transfer(&mut s, &ctx(&alice), &bob, 1);
    assert!(res.is_err());

    let alice2 = addr("alice2");
    s.replace_wallet(&ctx(&owner), same(&alice), same(&alice2)).unwrap();
    s.set_kyc_status(&ctx(&agent), same(&alice2), KycStatus::Approved).unwrap();

    let bal_alice2 = s.balance(&alice2).unwrap();
    assert_eq!(bal_alice2, 100);

    let res = transfer(&mut s, &ctx(&alice2), &bob, 10).unwrap();
    assert!(res.events.iter().any(|e| e.ty == "post_transfer"));
    let bal_bob = s.balance(&bob).unwrap();
    assert_eq!(bal_bob, 10);
}

#[test]
fn denylist_blocks_mint_and_transfer() {
    let owner = addr("owner");
    let deployer = addr("deployer");
    let bob = addr("bob");
    let (mut s, _) =
        TokenState::instantiate(inst(&owner, &owner, &owner, vec![(same(&owner), 100)]), &ctx(&deployer)).unwrap();

    s.set_kyc_status(&ctx(&owner), same(&bob), KycStatus::Approved).unwrap();
    s.add_to_denylist(&ctx(&owner), same(&bob)).unwrap();

    let res = mint(&mut s, &ctx(&owner), &bob, 1);
    assert!(res.is_err());

    let res = transfer(&mut s, &ctx(&owner), &bob, 1);
    assert!(res.is_err());

    s.remove_from_denylist(&ctx(&owner), same(&bob)).unwrap();
    transfer(&mut s, &ctx(&owner), &bob, 1).unwrap();
}

#[test]
fn governance_pause_unpause_flow() {
    let owner = addr("owner");
    let deployer = addr("deployer");
    let m1 = addr("m1");
    let m2 = addr("m2");
    let (mut s, _) = TokenState::instantiate(inst(&owner, &owner, &owner, vec![]), &ctx(&deployer)).unwrap();

    s.set_governance_config(&ctx(&owner), vec![same(&m1), same(&m2)], 2, 0).unwrap();
    s.submit_gov_proposal(&ctx(&m1), "pause".to_string()).unwrap();
    s.approve_gov_proposal(&ctx(&m1), 1).unwrap();
    s.approve_gov_proposal(&ctx(&m2), 1).unwrap();
    s.execute_gov_proposal(&ctx(&m1), 1).unwrap();
    assert!(s.is_paused());

    s.submit_gov_proposal(&ctx(&m2), "unpause".to_string()).unwrap();
    s.approve_gov_proposal(&ctx(&m1), 2).unwrap();
    s.approve_gov_proposal(&ctx(&m2), 2).unwrap();
    s.execute_gov_proposal(&ctx(&owner), 2).unwrap();
    assert!(!s.is_paused());
}
