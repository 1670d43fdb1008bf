use cosmwasm_std::testing::MockApi;
use cw3643::common::{AddrInput, Ctx, StdFailure};
use cw3643::token::checks::{Checks, Progress, Query};
use cw3643::token::interfaces::IsVerifiedResponse;
use cw3643::token::kyc::check_transfer_limit;
use cw3643::token::state::{InstantiateMsg, TokenState};
use cw3643::token::types::{ContractError, InitialBalance, KycStatus, TokenMsg, TokenResponse};

fn addr(name: &str) -> AddrInput {
    AddrInput { text: MockApi::default().addr_make(name).to_string(), rejection: None }
}

fn same(a: &AddrInput) -> AddrInput {
    AddrInput { text: a.text.clone(), rejection: None }
}

fn ctx_at(sender: &AddrInput, time: u64) -> Ctx {
    Ctx { sender: same(sender), contract: "token".to_string(), time }
}

fn ctx(sender: &AddrInput) -> Ctx {
    ctx_at(sender, 1_000)
}

fn token(owner: &AddrInput, initial: Vec<(AddrInput, u128)>, registry: Option<&AddrInput>, compliance: Option<&AddrInput>) -> TokenState {
    let msg = InstantiateMsg {
        name: "RWA".to_string(),
        symbol: "RWA".to_string(),
        decimals: 6,
        initial_balances: initial.into_iter().map(|(address, amount)| InitialBalance { address, amount }).collect(),
        issuer: same(owner),
        controller: same(owner),
        owner: same(owner),
        cap: None,
        minting_cap: 1_000,
        require_kyc_for_transfer: None,
        identity_registry: registry.map(same),
        compliance: compliance.map(same),
    };
    TokenState::instantiate(msg, &ctx(owner)).unwrap().0
}

fn run_local(s: &TokenState, checks: &mut Checks) -> Result<(), ContractError> {
    match s.advance(checks, None) {
        Progress::Passed => Ok(()),
        Progress::Refused(e) => Err(e),
        Progress::Ask(q) => panic!("unexpected question {:?}", q),
    }
}

fn transfer(s: &mut TokenState, c: &Ctx, to: &AddrInput, amount: u128) -> Result<TokenResponse, ContractError> {
    let mut checks = s.begin_transfer(c, to, amount)?;
    run_local(s, &mut checks)?;
    s.finish_transfer(c, &checks, to, amount)
}

fn mint(s: &mut TokenState, c: &Ctx, to: &AddrInput, amount: u128) -> Result<TokenResponse, ContractError> {
    let mut checks = s.begin_mint(c, to, amount)?;
    run_local(s, &mut checks)?;
    s.finish_mint(c, &checks, to, amount)
}

#[test]
fn transfers_keep_the_supply_and_refuse_the_unverified() {
    let owner = addr("owner");
    let alice = addr("alice");
    let bob = addr("bob");
    let mut s = token(&owner, vec![(same(&alice), 60)], None, None);
    s.set_kyc_status(&ctx(&owner), same(&alice), KycStatus::Approved).unwrap();
    match transfer(&mut s, &ctx(&alice), &bob, 5) {
        Err(ContractError::KycNotApproved(w)) => assert_eq!(w, bob.text),
        other => panic!("unexpected {:?}", other),
    }
    s.set_kyc_status(&ctx(&owner), same(&bob), KycStatus::Approved).unwrap();
    match transfer(&mut s, &ctx(&alice), &bob, 61) {
        Err(ContractError::InsufficientFunds) => {},
        other => panic!("unexpected {:?}", other),
    }
    match transfer(&mut s, &ctx(&alice), &bob, 0) {
        Err(ContractError::InvalidRequest) => {},
        other => panic!("unexpected {:?}", other),
    }
    let resp = transfer(&mut s, &ctx(&alice), &bob, 25).unwrap();
    assert!(resp.attributes.iter().any(|a| a.key == "amount" && a.value == "25"));
    assert_eq!(s.balance(&alice).unwrap() + s.balance(&bob).unwrap(), s.total_supply());
    assert_eq!(s.total_supply(), 60);
}

#[test]
fn registry_questions_are_handed_out() {
    let owner = addr("owner");
    let alice = addr("alice");
    let bob = addr("bob");
    let ir = addr("ir");
    let mut s = token(&owner, vec![(same(&alice), 10)], Some(&ir), None);
    s.set_kyc_status(&ctx(&owner), same(&alice), KycStatus::Approved).unwrap();
    s.set_kyc_status(&ctx(&owner), same(&bob), KycStatus::Approved).unwrap();
    let mut checks = s.begin_transfer(&ctx(&alice), &bob, 3).unwrap();
    let q = match s.advance(&mut checks, None) {
        Progress::Ask(q) => q,
        other => panic!("unexpected {:?}", other),
    };
    match &q {
        Query::IsVerified { registry, wallet } => {
            assert_eq!(registry, &ir.text);
            assert_eq!(wallet, &alice.text);
        },
        other => panic!("unexpected {:?}", other),
    }
    let (to, _) = q.registry_msg().unwrap();
    assert_eq!(to, ir.text);
    let answer = IsVerifiedResponse { verified: false, reason: None }.answer();
    match s.advance(&mut checks, Some(Ok(answer))) {
        Progress::Refused(ContractError::NotVerified(w)) => assert_eq!(w, alice.text),
        other => panic!("unexpected {:?}", other),
    }
}

#[test]
fn minting_respects_the_cap() {
    let owner = addr("owner");
    let bob = addr("bob");
    let comp = addr("comp");
    let mut s = token(&owner, vec![], None, Some(&comp));
    s.set_kyc_status(&ctx(&owner), same(&bob), KycStatus::Approved).unwrap();
    let mut checks = s.begin_mint(&ctx(&owner), &bob, 900).unwrap();
    assert!(matches!(s.advance(&mut checks, None), Progress::Passed));
    let resp = s.finish_mint(&ctx(&owner), &checks, &bob, 900).unwrap();
    match &resp.messages[0] {
        TokenMsg::Created { compliance, to, amount } => {
            assert_eq!(compliance, &comp.text);
            assert_eq!(to, &bob.text);
            assert_eq!(*amount, 900);
        },
        other => panic!("unexpected {:?}", other),
    }
    match mint(&mut s, &ctx(&owner), &bob, 101) {
        Err(ContractError::MintingCapExceeded { attempted, cap, current }) => {
            assert_eq!((attempted, cap, current), (101, 1_000, 900));
        },
        other => panic!("unexpected {:?}", other),
    }
    assert_eq!(s.minting_cap_info().available_to_mint, 100);
    match mint(&mut s, &ctx(&bob), &bob, 1) {
        Err(ContractError::Unauthorized) => {},
        other => panic!("unexpected {:?}", other),
    }
}

#[test]
fn replacing_a_wallet_moves_allowances_both_ways() {
    let owner = addr("owner");
    let lost = addr("lost");
    let new = addr("new");
    let spender = addr("spender");
    let granter = addr("granter");
    let mut s = token(&owner, vec![(same(&lost), 40), (same(&new), 2)], None, None);
    s.set_kyc_status(&ctx(&owner), same(&spender), KycStatus::Approved).unwrap();
    s.set_kyc_status(&ctx(&owner), same(&lost), KycStatus::Approved).unwrap();
    s.approve(&ctx(&lost), same(&spender), 7).unwrap();
    s.approve(&ctx(&granter), same(&lost), 9).unwrap();
    s.set_transfer_limit(&ctx(&owner), same(&lost), Some(5)).unwrap();
    s.replace_wallet(&ctx(&owner), same(&lost), same(&new)).unwrap();
    assert_eq!(s.balance(&new).unwrap(), 42);
    assert_eq!(s.balance(&lost).unwrap(), 0);
    assert_eq!(s.total_supply(), 42);
    assert_eq!(s.allowance(&new, &spender).unwrap(), 7);
    assert_eq!(s.allowance(&lost, &spender).unwrap(), 0);
    assert_eq!(s.allowance(&granter, &new).unwrap(), 9);
    assert_eq!(s.allowance(&granter, &lost).unwrap(), 0);
    assert_eq!(s.transfer_limit(&new).unwrap(), Some(5));
    assert_eq!(s.transfer_limit(&lost).unwrap(), None);
    assert!(s.frozen(&lost).unwrap());
    assert_eq!(s.kyc_status(&new).unwrap().status, KycStatus::Approved);
    match s.replace_wallet(&ctx(&spender), same(&new), same(&lost)) {
        Err(ContractError::Unauthorized) => {},
        other => panic!("unexpected {:?}", other),
    }
}

#[test]
fn replacing_a_wallet_by_itself_destroys_its_balance() {
    let owner = addr("owner");
    let w = addr("w");
    let mut s = token(&owner, vec![(same(&w), 40)], None, None);
    s.replace_wallet(&ctx(&owner), same(&w), same(&w)).unwrap();
    assert_eq!(s.balance(&w).unwrap(), 0);
    assert_eq!(s.total_supply(), 40);
}

#[test]
fn allowances_are_spent_by_transfer_from() {
    let owner = addr("owner");
    let alice = addr("alice");
    let bob = addr("bob");
    let carol = addr("carol");
    let mut s = token(&owner, vec![(same(&alice), 50)], None, None);
    for w in [&alice, &bob, &carol] {
        s.set_kyc_status(&ctx(&owner), same(w), KycStatus::Approved).unwrap();
    }
    s.approve(&ctx(&alice), same(&bob), 20).unwrap();
    let mut checks = s.begin_transfer_from(&ctx(&bob), &alice, &carol, 15).unwrap();
    assert!(matches!(s.advance(&mut checks, None), Progress::Passed));
    s.finish_transfer_from(&ctx(&bob), &checks, &alice, &carol, 15).unwrap();
    assert_eq!(s.allowance(&alice, &bob).unwrap(), 5);
    assert_eq!(s.balance(&carol).unwrap(), 15);
    let mut checks = s.begin_transfer_from(&ctx(&bob), &alice, &carol, 6).unwrap();
    match s.advance(&mut checks, None) {
        Progress::Refused(ContractError::InsufficientFunds) => {},
        other => panic!("unexpected {:?}", other),
    }
}

#[test]
fn redemption_locks_tokens_until_approved() {
    let owner = addr("owner");
    let alice = addr("alice");
    let mut s = token(&owner, vec![(same(&alice), 30)], None, None);
    s.create_asset(&ctx(&owner), "REF".to_string(), "house".to_string(), same(&owner), None).unwrap();
    match s.request_redemption(&ctx(&alice), 1, 10, None) {
        Ok(_) => {},
        other => panic!("unexpected {:?}", other),
    }
    match s.approve_redemption(&ctx(&owner), 1) {
        Err(ContractError::Std(StdFailure::Overflow(_))) => {},
        other => panic!("unexpected {:?}", other),
    }
    let mut s = token(&owner, vec![(same(&alice), 30)], None, None);
    s.create_asset(&ctx(&owner), "REF".to_string(), "house".to_string(), same(&owner), None).unwrap();
    s.issue_asset(&ctx(&owner), 1, same(&alice), 10).unwrap();
    s.approve_issue(&ctx(&owner), 1).unwrap();
    assert_eq!(s.asset_info(1).unwrap().total_tokenized, 10);
    assert_eq!(s.total_supply(), 40);
    s.request_redemption(&ctx(&alice), 1, 10, Some("sell".to_string())).unwrap();
    assert_eq!(s.balance(&alice).unwrap(), 30);
    assert_eq!(s.total_supply(), 40);
    let page = s.redemption_requests(None, None);
    assert_eq!(page.len(), 1);
    assert!(!page[0].approved);
    s.approve_redemption(&ctx(&owner), 1).unwrap();
    assert_eq!(s.total_supply(), 30);
    assert_eq!(s.asset_info(1).unwrap().total_tokenized, 0);
    assert!(s.redemption_requests(Some(0), Some(5))[0].approved);
    assert!(s.redemption_requests(Some(1), None).is_empty());
    assert_eq!(s.redemption_requests(None, Some(0)).len(), 1);
}

#[test]
fn approved_issuance_respects_the_minting_cap() {
    let owner = addr("owner");
    let alice = addr("alice");
    let mut s = token(&owner, vec![(same(&alice), 990)], None, None);
    s.create_asset(&ctx(&owner), "REF".to_string(), "house".to_string(), same(&owner), None).unwrap();
    s.issue_asset(&ctx(&owner), 1, same(&alice), 20).unwrap();
    match s.approve_issue(&ctx(&owner), 1) {
        Err(ContractError::MintingCapExceeded { attempted, cap, current }) => {
            assert_eq!((attempted, cap, current), (20, 1_000, 990));
        },
        other => panic!("unexpected {:?}", other),
    }
    assert_eq!(s.total_supply(), 990);
    assert_eq!(s.balance(&alice).unwrap(), 990);
    s.issue_asset(&ctx(&owner), 1, same(&alice), 10).unwrap();
    s.approve_issue(&ctx(&owner), 2).unwrap();
    assert_eq!(s.total_supply(), 1_000);
}

#[test]
fn governance_refuses_early_or_unapproved_execution() {
    let owner = addr("owner");
    let m1 = addr("m1");
    let m2 = addr("m2");
    let mut s = token(&owner, vec![], None, None);
    match s.submit_gov_proposal(&ctx(&m1), "pause".to_string()) {
        Err(ContractError::Unauthorized) => {},
        other => panic!("unexpected {:?}", other),
    }
    match s.set_governance_config(&ctx(&owner), vec![same(&m1)], 2, 0) {
        Err(ContractError::NotCompliant(m)) => assert_eq!(m, "threshold>members"),
        other => panic!("unexpected {:?}", other),
    }
    s.set_governance_config(&ctx(&owner), vec![same(&m1), same(&m2)], 1, 100).unwrap();
    let resp = s.submit_gov_proposal(&ctx_at(&m1, 1_000), "PAUSE".to_string()).unwrap();
    assert!(resp.attributes.iter().any(|a| a.key == "timelock_end" && a.value == "1100"));
    match s.execute_gov_proposal(&ctx_at(&m1, 1_050), 1) {
        Err(ContractError::InvalidRequest) => {},
        other => panic!("unexpected {:?}", other),
    }
    s.approve_gov_proposal(&ctx(&m2), 1).unwrap();
    match s.execute_gov_proposal(&ctx_at(&m1, 1_050), 1) {
        Err(ContractError::InvalidRequest) => {},
        other => panic!("unexpected {:?}", other),
    }
    s.execute_gov_proposal(&ctx_at(&m1, 1_100), 1).unwrap();
    assert!(s.is_paused());
    match s.execute_gov_proposal(&ctx_at(&m1, 1_200), 1) {
        Err(ContractError::InvalidRequest) => {},
        other => panic!("unexpected {:?}", other),
    }
    match s.approve_gov_proposal(&ctx(&m2), 1) {
        Err(ContractError::Std(StdFailure::Generic(m))) => assert_eq!(m, "already executed"),
        other => panic!("unexpected {:?}", other),
    }
    s.submit_gov_proposal(&ctx(&m1), "something".to_string()).unwrap();
    s.approve_gov_proposal(&ctx(&m1), 2).unwrap();
    match s.approve_gov_proposal(&ctx(&m1), 2) {
        Err(ContractError::AlreadyApproved) => {},
        other => panic!("unexpected {:?}", other),
    }
    let resp = s.execute_gov_proposal(&ctx_at(&m1, 5_000), 2).unwrap();
    assert!(resp.attributes.iter().any(|a| a.key == "gov_action" && a.value == "noop"));
    assert!(s.is_paused());
    let cfg = s.gov_config_info().unwrap();
    assert_eq!(cfg.members.len(), 2);
    assert_eq!(s.gov_proposal_page(None, None).len(), 2);
    assert_eq!(s.gov_proposal_page(None, Some(0)).len(), 1);
    assert_eq!(s.gov_proposal(2).unwrap().approvals, 1);
}

#[test]
fn queries_report_roles_and_counts() {
    let owner = addr("owner");
    let alice = addr("alice");
    let bob = addr("bob");
    let mut s = token(&owner, vec![(same(&alice), 5)], None, None);
    s.freeze(&ctx(&owner), same(&alice)).unwrap();
    s.add_to_denylist(&ctx(&owner), same(&bob)).unwrap();
    s.set_kyc_status(&ctx(&owner), same(&bob), KycStatus::Revoked).unwrap();
    let m = s.compliance_metrics();
    assert_eq!((m.kyc_pending, m.kyc_approved, m.kyc_revoked), (1, 1, 1));
    assert_eq!((m.frozen_count, m.denylisted), (1, 1));
    assert_eq!(s.roles().owner, owner.text);
    assert_eq!(s.kyc_status(&addr("nobody")).unwrap().status, KycStatus::Pending);
    assert_eq!(s.token_info().total_supply, 5);
    assert!(check_transfer_limit(&alice.text, &bob.text, 0).is_err());
    assert!(check_transfer_limit(&alice.text, &bob.text, 1).is_ok());
    assert_eq!(s.query_status(&bob.text), KycStatus::Revoked);
}

#[test]
fn batch_transfer_is_all_or_nothing() {
    let owner = addr("owner");
    let alice = addr("alice");
    let bob = addr("bob");
    let carol = addr("carol");
    let mut s = token(&owner, vec![(same(&alice), 30)], None, None);
    for w in [&alice, &bob, &carol] {
        s.set_kyc_status(&ctx(&owner), same(w), KycStatus::Approved).unwrap();
    }
    let c = ctx(&alice);
    let mut run = s.begin_batch(&c).unwrap();
    let mut checks = s.begin_batch_item(&c, &bob, 10).unwrap();
    run_local(&s, &mut checks).unwrap();
    s.finish_batch_item(&c, &checks, &bob, 10, &mut run).unwrap();
    let mut checks = s.begin_batch_item(&c, &carol, 25).unwrap();
    run_local(&s, &mut checks).unwrap();
    match s.finish_batch_item(&c, &checks, &carol, 25, &mut run) {
        Err(ContractError::InsufficientFunds) => {},
        other => panic!("unexpected {:?}", other),
    }
    assert_eq!(s.balance(&alice).unwrap(), 30);
    assert_eq!(s.balance(&bob).unwrap(), 0);

    let mut run = s.begin_batch(&c).unwrap();
    for (to, amount) in [(&bob, 10u128), (&carol, 15u128)] {
        let mut checks = s.begin_batch_item(&c, to, amount).unwrap();
        run_local(&s, &mut checks).unwrap();
        s.finish_batch_item(&c, &checks, to, amount, &mut run).unwrap();
    }
    let resp = s.commit_batch(&c, run);
    assert_eq!(resp.attributes.len(), 5);
    assert_eq!(s.balance(&alice).unwrap(), 5);
    assert_eq!(s.balance(&bob).unwrap(), 10);
    assert_eq!(s.balance(&carol).unwrap(), 15);
    assert_eq!(s.total_supply(), 30);
}
