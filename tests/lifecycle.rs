use lulo::address::{find_approver_address, find_mint_address, find_vault_address, Address};
use lulo::ledger::{Ledger, LedgerError};
use lulo::records::{
    Approve, Clock, Contract, Create, CreateVault, ErrorCode, Initialize, Pay, Redeem, SetApprover, Status,
    TokenAccount,
};

const NOW: i64 = 1_700_000_000;
const DAY: i64 = 86_400;

fn key(n: u8) -> Address {
    Address::from_bytes([n; 32])
}

fn clock(ts: i64) -> Clock {
    Clock { unix_timestamp: ts, slot: 42 }
}

struct World {
    ledger: Ledger,
    admin: Address,
    creator: Address,
    recipient: Address,
    currency: Address,
    vault: Address,
}

/// A configured ledger with a vault for `currency`, and a funded holding
/// (key 60) of the recipient and an empty payout holding (key 61) of the creator.
fn world() -> World {
    let program = key(200);
    let admin = key(1);
    let creator = key(2);
    let recipient = key(3);
    let currency = key(9);
    let mut ledger = Ledger::new(program);
    assert_eq!(ledger.initialize(Initialize { signer: admin }, 25, 10_000), Ok(()));
    let vault = find_vault_address(&currency, &program).unwrap();
    assert_eq!(ledger.create_vault(CreateVault { signer: admin, vault, mint: currency }), Ok(()));
    assert_eq!(
        ledger.register_account(key(60), TokenAccount { mint: currency, owner: recipient, amount: 5_000 }),
        Ok(())
    );
    assert_eq!(
        ledger.register_account(key(61), TokenAccount { mint: currency, owner: creator, amount: 0 }),
        Ok(())
    );
    World { ledger, admin, creator, recipient, currency, vault }
}

fn create_accounts(w: &World, contract: Address, holding: Address) -> Create {
    let mint = find_mint_address(&contract, &w.ledger.program_id).unwrap();
    Create {
        signer: w.creator,
        recipient: w.recipient,
        contract,
        mint,
        mint_account: holding,
        pay_mint: w.currency,
        vault: w.vault,
    }
}

fn create_contract(w: &mut World, contract: Address, holding: Address, amount_due: u64) {
    let a = create_accounts(w, contract, holding);
    assert_eq!(w.ledger.create(a, amount_due, NOW + DAY, clock(NOW)), Ok(()));
}

fn contract(w: &World, id: Address) -> Option<Contract> {
    w.ledger.contracts.get(&id)
}

fn balance(w: &World, holding: Address) -> u64 {
    w.ledger.accounts.get(&holding).unwrap().amount
}

fn pay_accounts(w: &World, id: Address, source: Address) -> Pay {
    Pay { signer: w.recipient, source, contract: id, vault: w.vault, pay_mint: w.currency }
}

fn redeem_accounts(w: &World, id: Address, holding: Address) -> Redeem {
    let mint = find_mint_address(&id, &w.ledger.program_id).unwrap();
    Redeem {
        signer: w.creator,
        creator: w.creator,
        contract: id,
        nft_account: holding,
        recipient: key(61),
        vault: w.vault,
        pay_mint: w.currency,
        mint,
    }
}

#[test]
fn create_requires_future_due_date() {
    let mut w = world();
    let a = create_accounts(&w, key(50), key(51));
    assert_eq!(w.ledger.create(a, 1000, NOW + DAY, clock(NOW)), Ok(()));
    let b = create_accounts(&w, key(52), key(53));
    assert_eq!(
        w.ledger.create(b, 1000, NOW - DAY, clock(NOW)),
        Err(LedgerError::Program(ErrorCode::InvalidDueDate))
    );
    let c = create_accounts(&w, key(54), key(55));
    assert_eq!(
        w.ledger.create(c, 1000, NOW, clock(NOW)),
        Err(LedgerError::Program(ErrorCode::InvalidDueDate))
    );
    assert!(contract(&w, key(52)).is_none());
    assert!(w.ledger.accounts.get(&key(53)).is_none());
}

#[test]
fn create_records_contract_and_mints_one_token_to_creator() {
    let mut w = world();
    create_contract(&mut w, key(50), key(51), 1000);
    let c = contract(&w, key(50)).unwrap();
    let mint = find_mint_address(&key(50), &w.ledger.program_id).unwrap();
    assert!(c.mint.same(&mint));
    assert!(c.creator.same(&w.creator));
    assert!(c.recipient.same(&w.recipient));
    assert!(c.pay_mint.same(&w.currency));
    assert_eq!(c.amount_due, 1000);
    assert_eq!(c.due_date, NOW + DAY);
    assert_eq!(c.create_ts, NOW);
    assert_eq!(c.create_slot, 42);
    assert!(c.approver.is_null());
    assert_eq!(c.status, Status::Created);
    assert_eq!(w.ledger.mints.get(&mint).unwrap().supply, 1);
    let holding = w.ledger.accounts.get(&key(51)).unwrap();
    assert_eq!(holding.amount, 1);
    assert!(holding.owner.same(&w.creator));
    assert!(holding.mint.same(&mint));
}

#[test]
fn representative_mints_differ_between_contracts() {
    let mut w = world();
    create_contract(&mut w, key(50), key(51), 1000);
    create_contract(&mut w, key(52), key(53), 2000);
    let m1 = contract(&w, key(50)).unwrap().mint;
    let m2 = contract(&w, key(52)).unwrap().mint;
    assert!(!m1.same(&m2));
    assert!(!m1.same(&key(50)));
}

#[test]
fn create_again_is_refused() {
    let mut w = world();
    create_contract(&mut w, key(50), key(51), 1000);
    let a = create_accounts(&w, key(50), key(56));
    assert_eq!(w.ledger.create(a, 1000, NOW + DAY, clock(NOW)), Err(LedgerError::AccountInUse));
    let mint = find_mint_address(&key(50), &w.ledger.program_id).unwrap();
    assert_eq!(w.ledger.mints.get(&mint).unwrap().supply, 1);
}

#[test]
fn create_checks_derived_addresses() {
    let mut w = world();
    let mut a = create_accounts(&w, key(50), key(51));
    a.mint = key(77);
    assert_eq!(w.ledger.create(a, 1000, NOW + DAY, clock(NOW)), Err(LedgerError::SeedsMismatch));
    let mut b = create_accounts(&w, key(50), key(51));
    b.vault = key(78);
    assert_eq!(w.ledger.create(b, 1000, NOW + DAY, clock(NOW)), Err(LedgerError::SeedsMismatch));
    let c = create_accounts(&w, key(50), key(60));
    assert_eq!(w.ledger.create(c, 1000, NOW + DAY, clock(NOW)), Err(LedgerError::AccountInUse));
}

#[test]
fn create_needs_the_currency_vault() {
    let mut w = world();
    let other = key(10);
    let mut a = create_accounts(&w, key(50), key(51));
    a.pay_mint = other;
    a.vault = find_vault_address(&other, &w.ledger.program_id).unwrap();
    assert_eq!(w.ledger.create(a, 1000, NOW + DAY, clock(NOW)), Err(LedgerError::AccountNotFound));
}

#[test]
fn recipient_approves_once() {
    let mut w = world();
    create_contract(&mut w, key(50), key(51), 1000);
    let a = Approve { signer: w.recipient, contract: key(50) };
    assert_eq!(w.ledger.approve(a, clock(NOW + 5)), Ok(()));
    let c = contract(&w, key(50)).unwrap();
    assert_eq!(c.status, Status::Approved);
    assert!(c.approver.same(&w.recipient));
    assert_eq!(c.approve_ts, NOW + 5);
    assert_eq!(
        w.ledger.approve(a, clock(NOW + 6)),
        Err(LedgerError::Program(ErrorCode::ExistingApproval))
    );
    assert_eq!(contract(&w, key(50)).unwrap().approve_ts, NOW + 5);
}

#[test]
fn delegate_approves_after_set_approver() {
    let mut w = world();
    create_contract(&mut w, key(50), key(51), 1000);
    let delegate = key(4);
    let record = find_approver_address(&w.recipient, &delegate, &w.ledger.program_id).unwrap();
    let s = SetApprover { signer: w.recipient, delegate, approver: record };
    assert_eq!(w.ledger.set_approver(s), Ok(()));
    let r = w.ledger.approvers.get(&record).unwrap();
    assert!(r.admin.same(&w.recipient));
    assert!(r.key.same(&delegate));
    assert_eq!(w.ledger.approve(Approve { signer: delegate, contract: key(50) }, clock(NOW)), Ok(()));
    let c = contract(&w, key(50)).unwrap();
    assert_eq!(c.status, Status::Approved);
    assert!(c.approver.same(&delegate));
}

#[test]
fn third_party_cannot_approve() {
    let mut w = world();
    create_contract(&mut w, key(50), key(51), 1000);
    assert_eq!(
        w.ledger.approve(Approve { signer: key(5), contract: key(50) }, clock(NOW)),
        Err(LedgerError::Program(ErrorCode::UnauthorizedApprover))
    );
    let c = contract(&w, key(50)).unwrap();
    assert_eq!(c.status, Status::Created);
    assert!(c.approver.is_null());
}

#[test]
fn delegate_of_someone_else_cannot_approve() {
    let mut w = world();
    create_contract(&mut w, key(50), key(51), 1000);
    let delegate = key(4);
    let record = find_approver_address(&key(8), &delegate, &w.ledger.program_id).unwrap();
    let s = SetApprover { signer: key(8), delegate, approver: record };
    assert_eq!(w.ledger.set_approver(s), Ok(()));
    assert_eq!(
        w.ledger.approve(Approve { signer: delegate, contract: key(50) }, clock(NOW)),
        Err(LedgerError::Program(ErrorCode::UnauthorizedApprover))
    );
}

#[test]
fn set_approver_twice_or_at_wrong_address_is_refused() {
    let mut w = world();
    let delegate = key(4);
    let record = find_approver_address(&w.recipient, &delegate, &w.ledger.program_id).unwrap();
    let s = SetApprover { signer: w.recipient, delegate, approver: record };
    assert_eq!(w.ledger.set_approver(s), Ok(()));
    assert_eq!(w.ledger.set_approver(s), Err(LedgerError::AccountInUse));
    let wrong = SetApprover { signer: w.recipient, delegate: key(6), approver: record };
    assert_eq!(w.ledger.set_approver(wrong), Err(LedgerError::SeedsMismatch));
}

#[test]
fn approve_unknown_contract_is_refused() {
    let mut w = world();
    assert_eq!(
        w.ledger.approve(Approve { signer: w.recipient, contract: key(99) }, clock(NOW)),
        Err(LedgerError::AccountNotFound)
    );
}

#[test]
fn pay_moves_amount_due_into_vault() {
    let mut w = world();
    create_contract(&mut w, key(50), key(51), 1000);
    assert_eq!(w.ledger.pay(pay_accounts(&w, key(50), key(60)), clock(NOW + 7)), Ok(()));
    assert_eq!(balance(&w, key(60)), 4_000);
    assert_eq!(balance(&w, w.vault), 1_000);
    let c = contract(&w, key(50)).unwrap();
    assert_eq!(c.status, Status::Paid);
    assert!(c.payer.same(&w.recipient));
    assert_eq!(c.pay_ts, NOW + 7);
}

#[test]
fn pay_with_insufficient_funds_changes_nothing() {
    let mut w = world();
    create_contract(&mut w, key(50), key(51), 6_000);
    assert_eq!(
        w.ledger.pay(pay_accounts(&w, key(50), key(60)), clock(NOW)),
        Err(LedgerError::InsufficientFunds)
    );
    assert_eq!(balance(&w, key(60)), 5_000);
    assert_eq!(balance(&w, w.vault), 0);
    let c = contract(&w, key(50)).unwrap();
    assert_eq!(c.status, Status::Created);
    assert!(c.payer.is_null());
}

#[test]
fn pay_checks_signer_and_currency() {
    let mut w = world();
    create_contract(&mut w, key(50), key(51), 1000);
    let mut a = pay_accounts(&w, key(50), key(60));
    a.signer = key(5);
    assert_eq!(w.ledger.pay(a, clock(NOW)), Err(LedgerError::ConstraintViolated));
    assert_eq!(
        w.ledger.register_account(key(62), TokenAccount { mint: key(10), owner: w.recipient, amount: 5_000 }),
        Ok(())
    );
    assert_eq!(
        w.ledger.pay(pay_accounts(&w, key(50), key(62)), clock(NOW)),
        Err(LedgerError::ConstraintViolated)
    );
    assert_eq!(
        w.ledger.register_account(key(63), TokenAccount { mint: w.currency, owner: key(5), amount: 5_000 }),
        Ok(())
    );
    assert_eq!(
        w.ledger.pay(pay_accounts(&w, key(50), key(63)), clock(NOW)),
        Err(LedgerError::OwnerMismatch)
    );
    let mut b = pay_accounts(&w, key(50), key(60));
    b.vault = key(64);
    assert_eq!(w.ledger.pay(b, clock(NOW)), Err(LedgerError::SeedsMismatch));
}

#[test]
fn pay_does_not_overflow_the_vault() {
    let mut w = world();
    create_contract(&mut w, key(50), key(51), 10);
    assert_eq!(
        w.ledger.register_account(key(62), TokenAccount { mint: w.currency, owner: w.recipient, amount: u64::MAX }),
        Ok(())
    );
    assert_eq!(w.ledger.pay(pay_accounts(&w, key(50), key(62)), clock(NOW)), Ok(()));
    create_contract(&mut w, key(52), key(53), u64::MAX);
    assert_eq!(
        w.ledger.pay(pay_accounts(&w, key(52), key(62)), clock(NOW)),
        Err(LedgerError::InsufficientFunds)
    );
    assert_eq!(
        w.ledger.register_account(key(65), TokenAccount { mint: w.currency, owner: w.recipient, amount: u64::MAX }),
        Ok(())
    );
    assert_eq!(w.ledger.pay(pay_accounts(&w, key(52), key(65)), clock(NOW)), Err(LedgerError::Overflow));
}

#[test]
fn approve_after_pay_keeps_paid_status() {
    let mut w = world();
    create_contract(&mut w, key(50), key(51), 1000);
    assert_eq!(w.ledger.pay(pay_accounts(&w, key(50), key(60)), clock(NOW)), Ok(()));
    assert_eq!(w.ledger.approve(Approve { signer: w.recipient, contract: key(50) }, clock(NOW)), Ok(()));
    let c = contract(&w, key(50)).unwrap();
    assert_eq!(c.status, Status::Paid);
    assert!(c.approver.same(&w.recipient));
}

#[test]
fn redeem_pays_out_burns_and_deletes() {
    let mut w = world();
    create_contract(&mut w, key(50), key(51), 1000);
    assert_eq!(w.ledger.pay(pay_accounts(&w, key(50), key(60)), clock(NOW)), Ok(()));
    let a = redeem_accounts(&w, key(50), key(51));
    assert_eq!(balance(&w, key(51)), 1);
    assert_eq!(w.ledger.redeem(a), Ok(()));
    assert_eq!(balance(&w, key(51)), 0);
    assert_eq!(balance(&w, key(61)), 1_000);
    assert_eq!(balance(&w, w.vault), 0);
    assert_eq!(w.ledger.mints.get(&a.mint).unwrap().supply, 0);
    assert!(contract(&w, key(50)).is_none());
}

#[test]
fn redeem_twice_fails() {
    let mut w = world();
    create_contract(&mut w, key(50), key(51), 1000);
    assert_eq!(w.ledger.pay(pay_accounts(&w, key(50), key(60)), clock(NOW)), Ok(()));
    let a = redeem_accounts(&w, key(50), key(51));
    assert_eq!(w.ledger.redeem(a), Ok(()));
    assert_eq!(w.ledger.redeem(a), Err(LedgerError::AccountNotFound));
    assert_eq!(balance(&w, key(61)), 1_000);
}

#[test]
fn redeem_checks_creator_and_holding() {
    let mut w = world();
    create_contract(&mut w, key(50), key(51), 1000);
    assert_eq!(w.ledger.pay(pay_accounts(&w, key(50), key(60)), clock(NOW)), Ok(()));
    let mut a = redeem_accounts(&w, key(50), key(51));
    a.creator = key(5);
    assert_eq!(w.ledger.redeem(a), Err(LedgerError::ConstraintViolated));
    let mut b = redeem_accounts(&w, key(50), key(51));
    b.signer = key(5);
    assert_eq!(w.ledger.redeem(b), Err(LedgerError::ConstraintViolated));
    let c = redeem_accounts(&w, key(50), key(60));
    assert_eq!(w.ledger.redeem(c), Err(LedgerError::ConstraintViolated));
    let mut d = redeem_accounts(&w, key(50), key(51));
    d.pay_mint = key(10);
    d.vault = find_vault_address(&key(10), &w.ledger.program_id).unwrap();
    assert_eq!(w.ledger.redeem(d), Err(LedgerError::AccountNotFound));
    assert!(contract(&w, key(50)).is_some());
    assert_eq!(balance(&w, key(51)), 1);
}

#[test]
fn redeem_of_unpaid_contract_needs_vault_funds() {
    let mut w = world();
    create_contract(&mut w, key(50), key(51), 1000);
    let a = redeem_accounts(&w, key(50), key(51));
    assert_eq!(w.ledger.redeem(a), Err(LedgerError::InsufficientFunds));
    assert!(contract(&w, key(50)).is_some());
}

#[test]
fn vault_holds_what_paid_contracts_owe() {
    let mut w = world();
    create_contract(&mut w, key(50), key(51), 1000);
    create_contract(&mut w, key(52), key(53), 700);
    create_contract(&mut w, key(54), key(55), 300);
    assert_eq!(w.ledger.pay(pay_accounts(&w, key(50), key(60)), clock(NOW)), Ok(()));
    assert_eq!(w.ledger.pay(pay_accounts(&w, key(52), key(60)), clock(NOW)), Ok(()));
    assert_eq!(balance(&w, w.vault), 1_700);
    assert_eq!(w.ledger.redeem(redeem_accounts(&w, key(50), key(51))), Ok(()));
    assert_eq!(balance(&w, w.vault), 700);
    assert_eq!(w.ledger.pay(pay_accounts(&w, key(54), key(60)), clock(NOW)), Ok(()));
    assert_eq!(balance(&w, w.vault), 1_000);
    assert_eq!(balance(&w, key(60)), 3_000);
}

#[test]
fn create_vault_is_admin_only_and_once() {
    let mut w = world();
    let other = key(10);
    let vault = find_vault_address(&other, &w.ledger.program_id).unwrap();
    assert_eq!(
        w.ledger.create_vault(CreateVault { signer: key(5), vault, mint: other }),
        Err(LedgerError::ConstraintViolated)
    );
    let again = CreateVault { signer: w.admin, vault: w.vault, mint: w.currency };
    assert_eq!(w.ledger.create_vault(again), Err(LedgerError::AccountInUse));
    assert_eq!(
        w.ledger.create_vault(CreateVault { signer: w.admin, vault: w.vault, mint: other }),
        Err(LedgerError::SeedsMismatch)
    );
    assert_eq!(w.ledger.create_vault(CreateVault { signer: w.admin, vault, mint: other }), Ok(()));
    let v = w.ledger.accounts.get(&vault).unwrap();
    assert_eq!(v.amount, 0);
    assert!(v.owner.same(&vault));
    assert!(v.mint.same(&other));
}

#[test]
fn create_vault_needs_configuration() {
    let mut ledger = Ledger::new(key(200));
    let vault = find_vault_address(&key(9), &key(200)).unwrap();
    assert_eq!(
        ledger.create_vault(CreateVault { signer: key(1), vault, mint: key(9) }),
        Err(LedgerError::AccountNotFound)
    );
}

#[test]
fn initialize_overwrites_configuration() {
    let mut w = world();
    assert_eq!(w.ledger.initialize(Initialize { signer: key(7) }, 30, 100), Ok(()));
    let s = w.ledger.state.unwrap();
    assert!(s.admin.same(&key(7)));
    assert_eq!(s.fee, 30);
    assert_eq!(s.fee_scalar, 100);
}

#[test]
fn derived_addresses_are_deterministic_and_distinct() {
    let program = key(200);
    let v1 = find_vault_address(&key(9), &program).unwrap();
    let v2 = find_vault_address(&key(9), &program).unwrap();
    assert!(v1.same(&v2));
    assert!(!v1.same(&key(9)));
    let v3 = find_vault_address(&key(10), &program).unwrap();
    assert!(!v1.same(&v3));
    let m = find_mint_address(&key(9), &program).unwrap();
    assert!(!m.same(&v1));
    let a1 = find_approver_address(&key(3), &key(4), &program).unwrap();
    let a2 = find_approver_address(&key(4), &key(3), &program).unwrap();
    assert!(!a1.same(&a2));
    let other_program = find_vault_address(&key(9), &key(201)).unwrap();
    assert!(!v1.same(&other_program));
}

#[test]
fn error_messages() {
    assert_eq!(ErrorCode::ExistingApproval.message(), "Contract is already approved");
    assert_eq!(ErrorCode::UnauthorizedApprover.message(), "Not an authorized approver");
    assert_eq!(ErrorCode::InvalidDueDate.message(), "Due date must be in the future");
}

#[test]
fn register_account_refuses_taken_address() {
    let mut w = world();
    assert_eq!(
        w.ledger.register_account(key(60), TokenAccount { mint: w.currency, owner: w.creator, amount: 1 }),
        Err(LedgerError::AccountInUse)
    );
    assert_eq!(balance(&w, key(60)), 5_000);
}
