use vstd::prelude::*;

use crate::address::{null_view, Address};

verus! {

/// Failures that the protocol itself raises.
#[derive(Clone, Copy, Debug, PartialEq, Eq, Structural)]
pub enum ErrorCode {
    /// The contract is already approved.
    ExistingApproval,
    /// The signer is neither the recipient nor one of its delegates.
    UnauthorizedApprover,
    /// The due date is not in the future.
    InvalidDueDate,
}

impl ErrorCode {
    /// The human-readable message of the error.
    pub fn message(&self) -> (r: &'static str)
        ensures
            *self is ExistingApproval ==> r@ == "Contract is already approved"@,
            *self is UnauthorizedApprover ==> r@ == "Not an authorized approver"@,
            *self is InvalidDueDate ==> r@ == "Due date must be in the future"@,
    {
        match self {
            ErrorCode::ExistingApproval => "Contract is already approved",
            ErrorCode::UnauthorizedApprover => "Not an authorized approver",
            ErrorCode::InvalidDueDate => "Due date must be in the future",
        }
    }
}

/// Lifecycle stage of a contract.
#[derive(Clone, Copy, Debug, PartialEq, Eq, Structural)]
pub enum Status {
    Created,
    Approved,
    Paid,
}

/// The ledger's clock at the time of an operation.
#[derive(Clone, Copy, Debug, PartialEq, Eq, Structural)]
pub struct Clock {
    pub unix_timestamp: i64,
    pub slot: u64,
}

/// One receivable: `payer` owes `amount_due` of `pay_mint` to `recipient`.
#[derive(Clone, Copy, Debug)]
pub struct Contract {
    pub recipient: Address,
    /// The representative token of this contract.
    pub mint: Address,
    /// The settlement currency.
    pub pay_mint: Address,
    pub amount_due: u64,
    pub due_date: i64,
    pub creator: Address,
    pub create_ts: i64,
    pub create_slot: u64,
    /// Who approved the contract; the null identity until then.
    pub approver: Address,
    pub approve_ts: i64,
    pub approve_slot: u64,
    pub status: Status,
    pub payer: Address,
    pub pay_ts: i64,
    pub pay_slot: u64,
}

/// A delegation of approval rights from `admin` (a recipient) to `key`.
#[derive(Clone, Copy, Debug)]
pub struct Approver {
    pub admin: Address,
    pub key: Address,
    pub balance: u64,
    pub budget: u64,
    pub budget_mint: Address,
}

/// The protocol's global configuration.
#[derive(Clone, Copy, Debug)]
pub struct State {
    pub admin: Address,
    pub fee: u64,
    pub fee_scalar: u64,
}

/// A holding of some token.
#[derive(Clone, Copy, Debug)]
pub struct TokenAccount {
    pub mint: Address,
    pub owner: Address,
    pub amount: u64,
}

/// A token kind: who may mint it and how much of it exists.
#[derive(Clone, Copy, Debug)]
pub struct Mint {
    pub authority: Address,
    pub supply: u64,
    pub decimals: u8,
}

/// Accounts of `initialize`.
#[derive(Clone, Copy, Debug)]
pub struct Initialize {
    pub signer: Address,
}

/// Accounts of `create_vault`.
#[derive(Clone, Copy, Debug)]
pub struct CreateVault {
    pub signer: Address,
    pub vault: Address,
    pub mint: Address,
}

/// Accounts of `create`.
#[derive(Clone, Copy, Debug)]
pub struct Create {
    pub signer: Address,
    pub recipient: Address,
    pub contract: Address,
    pub mint: Address,
    /// The creator's holding of the representative token.
    pub mint_account: Address,
    pub pay_mint: Address,
    pub vault: Address,
}

/// Accounts of `set_approver`.
#[derive(Clone, Copy, Debug)]
pub struct SetApprover {
    pub signer: Address,
    pub delegate: Address,
    pub approver: Address,
}

/// Accounts of `approve`.
#[derive(Clone, Copy, Debug)]
pub struct Approve {
    pub signer: Address,
    pub contract: Address,
}

/// Accounts of `pay`.
#[derive(Clone, Copy, Debug)]
pub struct Pay {
    pub signer: Address,
    pub source: Address,
    pub contract: Address,
    pub vault: Address,
    pub pay_mint: Address,
}

/// Accounts of `redeem`.
#[derive(Clone, Copy, Debug)]
pub struct Redeem {
    pub signer: Address,
    pub creator: Address,
    pub contract: Address,
    /// The signer's holding of the representative token.
    pub nft_account: Address,
    /// Where the settled funds go.
    pub recipient: Address,
    pub vault: Address,
    pub pay_mint: Address,
    pub mint: Address,
}

/// `c` is the contract freshly created by `creator` at `clock`.
pub open spec fn is_created(
    c: Contract,
    recipient: Address,
    mint: Address,
    pay_mint: Address,
    amount_due: u64,
    due_date: i64,
    creator: Address,
    clock: Clock,
) -> bool {
    &&& c.recipient == recipient
    &&& c.mint == mint
    &&& c.pay_mint == pay_mint
    &&& c.amount_due == amount_due
    &&& c.due_date == due_date
    &&& c.creator == creator
    &&& c.create_ts == clock.unix_timestamp
    &&& c.create_slot == clock.slot
    &&& c.approver@ == null_view()
    &&& c.approve_ts == 0
    &&& c.approve_slot == 0
    &&& c.status == Status::Created
    &&& c.payer@ == null_view()
    &&& c.pay_ts == 0
    &&& c.pay_slot == 0
}

/// `signer` may approve `c`: it is the recipient, or `record` delegates to it
/// on the recipient's behalf.
pub open spec fn may_approve(c: Contract, signer: Seq<u8>, record: Option<Approver>) -> bool {
    c.recipient@ == signer || (record matches Some(a) && a.admin@ == c.recipient@ && a.key@ == signer)
}

/// `c` after `signer` approved it at `clock`; the status only moves forward,
/// so a contract already paid stays paid.
pub open spec fn approved(c: Contract, signer: Address, clock: Clock) -> Contract {
    Contract {
        approver: signer,
        approve_ts: clock.unix_timestamp,
        approve_slot: clock.slot,
        status: if c.status == Status::Created {
            Status::Approved
        } else {
            c.status
        },
        ..c
    }
}

/// `c` after `payer` paid it at `clock`.
pub open spec fn paid(c: Contract, payer: Address, clock: Clock) -> Contract {
    Contract { payer, pay_ts: clock.unix_timestamp, pay_slot: clock.slot, status: Status::Paid, ..c }
}

impl Contract {
    /// A new contract, provided its due date lies after `clock`.
    pub fn new(
        recipient: Address,
        mint: Address,
        pay_mint: Address,
        amount_due: u64,
        due_date: i64,
        creator: Address,
        clock: Clock,
    ) -> (r: Result<Contract, ErrorCode>)
        ensures
            due_date > clock.unix_timestamp ==> r is Ok
                && is_created(r->Ok_0, recipient, mint, pay_mint, amount_due, due_date, creator, clock),
            due_date <= clock.unix_timestamp ==> r == Err::<Contract, ErrorCode>(ErrorCode::InvalidDueDate),
    {
        if due_date <= clock.unix_timestamp {
            return Err(ErrorCode::InvalidDueDate);
        }
        let none = Address::null();
        Ok(Contract {
            recipient,
            mint,
            pay_mint,
            amount_due,
            due_date,
            creator,
            create_ts: clock.unix_timestamp,
            create_slot: clock.slot,
            approver: none,
            approve_ts: 0,
            approve_slot: 0,
            status: Status::Created,
            payer: none,
            pay_ts: 0,
            pay_slot: 0,
        })
    }

    /// Approves the contract on behalf of `signer`; `record` is the delegation,
    /// if any, that the signer presents.
    pub fn approve(&mut self, signer: Address, record: Option<Approver>, clock: Clock) -> (r: Result<(), ErrorCode>)
        ensures
            old(self).approver@ != null_view() ==> r == Err::<(), ErrorCode>(ErrorCode::ExistingApproval),
            old(self).approver@ == null_view() && !may_approve(*old(self), signer@, record)
                ==> r == Err::<(), ErrorCode>(ErrorCode::UnauthorizedApprover),
            old(self).approver@ == null_view() && may_approve(*old(self), signer@, record) ==> r is Ok,
            r is Ok ==> *final(self) == approved(*old(self), signer, clock),
            r is Err ==> *final(self) == *old(self),
    {
        if !self.approver.is_null() {
            return Err(ErrorCode::ExistingApproval);
        }
        let delegated = match record {
            Some(a) => a.admin.same(&self.recipient) && a.key.same(&signer),
            None => false,
        };
        if self.recipient.same(&signer) || delegated {
            self.approver = signer;
            self.approve_ts = clock.unix_timestamp;
            self.approve_slot = clock.slot;
            if self.status == Status::Created {
                self.status = Status::Approved;
            }
            Ok(())
        } else {
            Err(ErrorCode::UnauthorizedApprover)
        }
    }

    /// Records the payment of the contract by `payer`.
    pub fn record_payment(&mut self, payer: Address, clock: Clock)
        ensures
            *final(self) == paid(*old(self), payer, clock),
    {
        self.payer = payer;
        self.pay_ts = clock.unix_timestamp;
        self.pay_slot = clock.slot;
        self.status = Status::Paid;
    }
}

impl State {
    /// The configuration that `admin` sets up.
    pub fn new(admin: Address, fee: u64, fee_scalar: u64) -> (r: State)
        ensures
            r == (State { admin, fee, fee_scalar }),
    {
        State { admin, fee, fee_scalar }
    }
}

impl Approver {
    /// The record by which `admin` delegates approval to `delegate`.
    pub fn new(admin: Address, delegate: Address) -> (r: Approver)
        ensures
            r.admin == admin,
            r.key == delegate,
            r.balance == 0,
            r.budget == 0,
            r.budget_mint@ == null_view(),
    {
        Approver { admin, key: delegate, balance: 0, budget: 0, budget_mint: Address::null() }
    }
}

} // verus!
