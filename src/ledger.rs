use vstd::prelude::*;

use crate::address::{
    approver_address, find_approver_address, find_mint_address, find_vault_address, mint_address,
    null_view, vault_address, Address,
};
use crate::records::{
    approved, is_created, may_approve, paid, Approve, Approver, Clock, Contract, Create,
    CreateVault, ErrorCode, Initialize, Mint, Pay, Redeem, SetApprover, State, Status, TokenAccount,
};
use crate::registry::Registry;

verus! {

/// Why an operation on the ledger was refused. A refused operation changes nothing.
#[derive(Clone, Copy, Debug, PartialEq, Eq, Structural)]
pub enum LedgerError {
    /// The protocol's own rules refused it.
    Program(ErrorCode),
    /// An account to be created already exists.
    AccountInUse,
    /// A required account does not exist.
    AccountNotFound,
    /// An account is not at the address derived from its seeds.
    SeedsMismatch,
    /// The accounts supplied do not stand in the required relation.
    ConstraintViolated,
    /// Token accounts or mints of different currencies were combined.
    MintMismatch,
    /// The authority does not own the token account.
    OwnerMismatch,
    /// The token account holds less than the amount to move.
    InsufficientFunds,
    /// A balance or supply would leave the range of `u64`.
    Overflow,
}

/// Everything the protocol keeps on the ledger.
pub struct Ledger {
    /// The identity of the program, the root of every derived address.
    pub program_id: Address,
    pub state: Option<State>,
    pub contracts: Registry<Contract>,
    pub approvers: Registry<Approver>,
    /// Representative-token mints, one per contract ever created.
    pub mints: Registry<Mint>,
    /// Token holdings, vaults included.
    pub accounts: Registry<TokenAccount>,
}

/// Outcome of a checked custody transfer of `amount` from `from` to `to`.
pub open spec fn transfer_error(
    acc: Map<Seq<u8>, TokenAccount>,
    from: Seq<u8>,
    to: Seq<u8>,
    authority: Seq<u8>,
    amount: u64,
) -> Option<LedgerError> {
    if !acc.contains_key(from) || !acc.contains_key(to) {
        Some(LedgerError::AccountNotFound)
    } else if acc[from].amount < amount {
        Some(LedgerError::InsufficientFunds)
    } else if acc[from].mint@ != acc[to].mint@ {
        Some(LedgerError::MintMismatch)
    } else if acc[from].owner@ != authority {
        Some(LedgerError::OwnerMismatch)
    } else if from != to && acc[to].amount + amount > u64::MAX {
        Some(LedgerError::Overflow)
    } else {
        None
    }
}

/// The holdings after `amount` moved from `from` to `to`.
pub open spec fn transferred(acc: Map<Seq<u8>, TokenAccount>, from: Seq<u8>, to: Seq<u8>, amount: u64) -> Map<
    Seq<u8>,
    TokenAccount,
> {
    if from == to {
        acc
    } else {
        acc.insert(from, TokenAccount { amount: (acc[from].amount - amount) as u64, ..acc[from] }).insert(
            to,
            TokenAccount { amount: (acc[to].amount + amount) as u64, ..acc[to] },
        )
    }
}

/// What `amount_due` a contract contributes to the pool of `currency`: its
/// amount when it is paid in that currency, else nothing.
pub open spec fn paid_in(c: Contract, currency: Seq<u8>) -> int {
    if c.status == Status::Paid && c.pay_mint@ == currency {
        c.amount_due as int
    } else {
        0
    }
}

/// The sum of what the contracts in `entries` contribute to the pool of `currency`.
pub open spec fn paid_total(entries: Seq<(Address, Contract)>, currency: Seq<u8>) -> int
    decreases entries.len(),
{
    if entries.len() == 0 {
        0
    } else {
        paid_total(entries.drop_last(), currency) + paid_in(entries.last().1, currency)
    }
}

/// The result of an operation whose refusal, if any, is `e`.
pub open spec fn outcome(e: Option<LedgerError>) -> Result<(), LedgerError> {
    match e {
        Some(e) => Err(e),
        None => Ok(()),
    }
}

impl Ledger {
    /// The ledger's invariant.
    pub open spec fn wf(&self) -> bool {
        &&& self.contracts.wf()
        &&& self.approvers.wf()
        &&& self.mints.wf()
        &&& self.accounts.wf()
        // every contract has its own representative mint
        &&& forall|k: Seq<u8>| #[trigger]
            self.contracts@.contains_key(k) ==> self.mints@.contains_key(self.contracts@[k].mint@)
                && mint_address(k, self.program_id@) == Some(self.contracts@[k].mint@)
        &&& forall|k1: Seq<u8>, k2: Seq<u8>|
            #[trigger] self.contracts@.contains_key(k1) && #[trigger] self.contracts@.contains_key(k2) && k1 != k2
                ==> self.contracts@[k1].mint@ != self.contracts@[k2].mint@
        // every delegation sits at the address derived from its pair
        &&& forall|a: Seq<u8>| #[trigger]
            self.approvers@.contains_key(a) ==> approver_address(
                self.approvers@[a].admin@,
                self.approvers@[a].key@,
                self.program_id@,
            ) == Some(a)
    }

    /// The delegation record, if any, by which `recipient` lets `signer` approve.
    pub open spec fn delegation(&self, recipient: Seq<u8>, signer: Seq<u8>) -> Option<Approver> {
        match approver_address(recipient, signer, self.program_id@) {
            Some(a) => if self.approvers@.contains_key(a) {
                Some(self.approvers@[a])
            } else {
                None
            },
            None => None,
        }
    }

    /// The vault of `currency` holds exactly what its paid, unredeemed contracts owe.
    pub open spec fn conserved(&self, currency: Seq<u8>) -> bool {
        match vault_address(currency, self.program_id@) {
            Some(v) => self.accounts@.contains_key(v) && self.accounts@[v].mint@ == currency
                ==> self.accounts@[v].amount == paid_total(self.contracts.entries@, currency),
            None => true,
        }
    }

    /// An empty ledger for the program `program_id`.
    pub fn new(program_id: Address) -> (r: Ledger)
        ensures
            r.wf(),
            r.program_id == program_id,
            r.state is None,
            r.contracts@ == Map::<Seq<u8>, Contract>::empty(),
            r.approvers@ == Map::<Seq<u8>, Approver>::empty(),
            r.mints@ == Map::<Seq<u8>, Mint>::empty(),
            r.accounts@ == Map::<Seq<u8>, TokenAccount>::empty(),
            forall|cur: Seq<u8>| #[trigger] r.conserved(cur),
    {
        Ledger {
            program_id,
            state: None,
            contracts: Registry::new(),
            approvers: Registry::new(),
            mints: Registry::new(),
            accounts: Registry::new(),
        }
    }

    /// Brings an existing token holding under the ledger's custody at `address`.
    pub fn register_account(&mut self, address: Address, account: TokenAccount) -> (r: Result<(), LedgerError>)
        requires
            old(self).wf(),
        ensures
            final(self).wf(),
            old(self).accounts@.contains_key(address@) ==> r == Err::<(), LedgerError>(LedgerError::AccountInUse)
                && *final(self) == *old(self),
            !old(self).accounts@.contains_key(address@) ==> r is Ok && final(self).accounts@ == old(
                self,
            ).accounts@.insert(address@, account),
            final(self).program_id == old(self).program_id,
            final(self).state == old(self).state,
            final(self).contracts == old(self).contracts,
            final(self).approvers == old(self).approvers,
            final(self).mints == old(self).mints,
    {
        if self.accounts.find(&address).is_some() {
            return Err(LedgerError::AccountInUse);
        }
        self.accounts.insert(address, account);
        Ok(())
    }

    /// Moves `amount` from the holding `from` to the holding `to`, on the
    /// authority of `authority`. Only the protocol's operations call it, after
    /// they have established that authority (a signer, or a vault's own seeds).
    fn transfer(&mut self, from: &Address, to: &Address, authority: &Address, amount: u64) -> (r: Result<
        (),
        LedgerError,
    >)
        requires
            old(self).wf(),
        ensures
            final(self).wf(),
            r == match transfer_error(old(self).accounts@, from@, to@, authority@, amount) {
                Some(e) => Err::<(), LedgerError>(e),
                None => Ok(()),
            },
            r is Ok ==> final(self).accounts@ == transferred(old(self).accounts@, from@, to@, amount),
            r is Err ==> *final(self) == *old(self),
            final(self).program_id == old(self).program_id,
            final(self).state == old(self).state,
            final(self).contracts == old(self).contracts,
            final(self).approvers == old(self).approvers,
            final(self).mints == old(self).mints,
    {
        let fi = match self.accounts.find(from) {
            Some(i) => i,
            None => return Err(LedgerError::AccountNotFound),
        };
        let ti = match self.accounts.find(to) {
            Some(i) => i,
            None => return Err(LedgerError::AccountNotFound),
        };
        let src = self.accounts.entries[fi].1;
        let dst = self.accounts.entries[ti].1;
        if src.amount < amount {
            return Err(LedgerError::InsufficientFunds);
        }
        if !src.mint.same(&dst.mint) {
            return Err(LedgerError::MintMismatch);
        }
        if !src.owner.same(authority) {
            return Err(LedgerError::OwnerMismatch);
        }
        if fi == ti {
            return Ok(());
        }
        if dst.amount > u64::MAX - amount {
            return Err(LedgerError::Overflow);
        }
        self.accounts.set(fi, TokenAccount { amount: src.amount - amount, ..src });
        proof {
            self.accounts.lemma_entry(ti as int);
        }
        self.accounts.set(ti, TokenAccount { amount: dst.amount + amount, ..dst });
        Ok(())
    }

    /// Why `create_vault` would be refused on this ledger, if it would.
    pub open spec fn create_vault_error(&self, a: CreateVault) -> Option<LedgerError> {
        match self.state {
            None => Some(LedgerError::AccountNotFound),
            Some(s) => if a.signer@ != s.admin@ {
                Some(LedgerError::ConstraintViolated)
            } else if vault_address(a.mint@, self.program_id@) != Some(a.vault@) {
                Some(LedgerError::SeedsMismatch)
            } else if self.accounts@.contains_key(a.vault@) {
                Some(LedgerError::AccountInUse)
            } else {
                None
            },
        }
    }

    /// Why `create` would be refused on this ledger, if it would.
    pub open spec fn create_error(&self, a: Create, due_date: i64, clock: Clock) -> Option<LedgerError> {
        if self.contracts@.contains_key(a.contract@) {
            Some(LedgerError::AccountInUse)
        } else if mint_address(a.contract@, self.program_id@) != Some(a.mint@) {
            Some(LedgerError::SeedsMismatch)
        } else if self.mints@.contains_key(a.mint@) {
            Some(LedgerError::AccountInUse)
        } else if self.accounts@.contains_key(a.mint_account@) {
            Some(LedgerError::AccountInUse)
        } else if vault_address(a.pay_mint@, self.program_id@) != Some(a.vault@) {
            Some(LedgerError::SeedsMismatch)
        } else if !self.accounts@.contains_key(a.vault@) {
            Some(LedgerError::AccountNotFound)
        } else if due_date <= clock.unix_timestamp {
            Some(LedgerError::Program(ErrorCode::InvalidDueDate))
        } else {
            None
        }
    }

    /// Why `set_approver` would be refused on this ledger, if it would.
    pub open spec fn set_approver_error(&self, a: SetApprover) -> Option<LedgerError> {
        if approver_address(a.signer@, a.delegate@, self.program_id@) != Some(a.approver@) {
            Some(LedgerError::SeedsMismatch)
        } else if self.approvers@.contains_key(a.approver@) {
            Some(LedgerError::AccountInUse)
        } else {
            None
        }
    }

    /// Why `approve` would be refused on this ledger, if it would.
    pub open spec fn approve_error(&self, a: Approve) -> Option<LedgerError> {
        if !self.contracts@.contains_key(a.contract@) {
            Some(LedgerError::AccountNotFound)
        } else if self.contracts@[a.contract@].approver@ != null_view() {
            Some(LedgerError::Program(ErrorCode::ExistingApproval))
        } else if !may_approve(
            self.contracts@[a.contract@],
            a.signer@,
            self.delegation(self.contracts@[a.contract@].recipient@, a.signer@),
        ) {
            Some(LedgerError::Program(ErrorCode::UnauthorizedApprover))
        } else {
            None
        }
    }

    /// Why `pay` would be refused on this ledger, if it would.
    pub open spec fn pay_error(&self, a: Pay) -> Option<LedgerError> {
        if !self.contracts@.contains_key(a.contract@) || !self.accounts@.contains_key(a.source@) {
            Some(LedgerError::AccountNotFound)
        } else if self.accounts@[a.source@].mint@ != a.pay_mint@ {
            Some(LedgerError::ConstraintViolated)
        } else if a.signer@ != self.contracts@[a.contract@].recipient@ {
            Some(LedgerError::ConstraintViolated)
        } else if vault_address(a.pay_mint@, self.program_id@) != Some(a.vault@) {
            Some(LedgerError::SeedsMismatch)
        } else if !self.accounts@.contains_key(a.vault@) {
            Some(LedgerError::AccountNotFound)
        } else if a.pay_mint@ != self.contracts@[a.contract@].pay_mint@ {
            Some(LedgerError::MintMismatch)
        } else {
            transfer_error(self.accounts@, a.source@, a.vault@, a.signer@, self.contracts@[a.contract@].amount_due)
        }
    }

    /// Why `redeem` would be refused on this ledger, if it would.
    pub open spec fn redeem_error(&self, a: Redeem) -> Option<LedgerError> {
        if !self.contracts@.contains_key(a.contract@) {
            Some(LedgerError::AccountNotFound)
        } else if a.creator@ != self.contracts@[a.contract@].creator@ {
            Some(LedgerError::ConstraintViolated)
        } else if !self.accounts@.contains_key(a.nft_account@) {
            Some(LedgerError::AccountNotFound)
        } else if self.accounts@[a.nft_account@].mint@ != self.contracts@[a.contract@].mint@
            || self.accounts@[a.nft_account@].amount != 1
            || self.accounts@[a.nft_account@].owner@ != a.signer@ {
            Some(LedgerError::ConstraintViolated)
        } else if !self.accounts@.contains_key(a.recipient@) {
            Some(LedgerError::AccountNotFound)
        } else if vault_address(a.pay_mint@, self.program_id@) != Some(a.vault@) {
            Some(LedgerError::SeedsMismatch)
        } else if !self.accounts@.contains_key(a.vault@) || !self.mints@.contains_key(a.mint@) {
            Some(LedgerError::AccountNotFound)
        } else if a.pay_mint@ != self.contracts@[a.contract@].pay_mint@ || self.accounts@[a.vault@].mint@
            != a.pay_mint@ {
            Some(LedgerError::MintMismatch)
        } else if a.nft_account@ == a.vault@ || a.nft_account@ == a.recipient@ {
            Some(LedgerError::ConstraintViolated)
        } else if a.mint@ != self.accounts@[a.nft_account@].mint@ {
            Some(LedgerError::MintMismatch)
        } else if self.mints@[a.mint@].supply < 1 {
            Some(LedgerError::Overflow)
        } else {
            transfer_error(self.accounts@, a.vault@, a.recipient@, a.vault@, self.contracts@[a.contract@].amount_due)
        }
    }

    /// Sets up the global configuration with the signer as admin; a second
    /// call overwrites the first.
    pub fn initialize(&mut self, accounts: Initialize, fee: u64, fee_scalar: u64) -> (r: Result<(), LedgerError>)
        requires
            old(self).wf(),
        ensures
            final(self).wf(),
            r is Ok,
            final(self).state == Some(State { admin: accounts.signer, fee, fee_scalar }),
            final(self).program_id == old(self).program_id,
            final(self).contracts == old(self).contracts,
            final(self).approvers == old(self).approvers,
            final(self).mints == old(self).mints,
            final(self).accounts == old(self).accounts,
    {
        self.state = Some(State::new(accounts.signer, fee, fee_scalar));
        Ok(())
    }

    /// Opens the empty vault of the currency `accounts.mint`; only the admin may.
    pub fn create_vault(&mut self, accounts: CreateVault) -> (r: Result<(), LedgerError>)
        requires
            old(self).wf(),
        ensures
            final(self).wf(),
            r == outcome(old(self).create_vault_error(accounts)),
            r is Err ==> *final(self) == *old(self),
            r is Ok ==> final(self).accounts@ == old(self).accounts@.insert(
                accounts.vault@,
                TokenAccount { mint: accounts.mint, owner: accounts.vault, amount: 0 },
            ),
            final(self).program_id == old(self).program_id,
            final(self).state == old(self).state,
            final(self).contracts == old(self).contracts,
            final(self).approvers == old(self).approvers,
            final(self).mints == old(self).mints,
    {
        let admin = match self.state {
            Some(s) => s.admin,
            None => return Err(LedgerError::AccountNotFound),
        };
        if !accounts.signer.same(&admin) {
            return Err(LedgerError::ConstraintViolated);
        }
        match find_vault_address(&accounts.mint, &self.program_id) {
            Some(v) => if !v.same(&accounts.vault) {
                return Err(LedgerError::SeedsMismatch);
            },
            None => return Err(LedgerError::SeedsMismatch),
        }
        if self.accounts.find(&accounts.vault).is_some() {
            return Err(LedgerError::AccountInUse);
        }
        self.accounts.insert(accounts.vault, TokenAccount { mint: accounts.mint, owner: accounts.vault, amount: 0 });
        Ok(())
    }

    /// Registers a contract owed to `accounts.recipient` and mints its one
    /// representative token to the creator.
    pub fn create(&mut self, accounts: Create, amount_due: u64, due_date: i64, clock: Clock) -> (r: Result<
        (),
        LedgerError,
    >)
        requires
            old(self).wf(),
        ensures
            final(self).wf(),
            r == outcome(old(self).create_error(accounts, due_date, clock)),
            r is Err ==> *final(self) == *old(self),
            r is Ok ==> final(self).contracts@ == old(self).contracts@.insert(
                accounts.contract@,
                final(self).contracts@[accounts.contract@],
            ),
            r is Ok ==> is_created(
                final(self).contracts@[accounts.contract@],
                accounts.recipient,
                accounts.mint,
                accounts.pay_mint,
                amount_due,
                due_date,
                accounts.signer,
                clock,
            ),
            r is Ok ==> final(self).mints@ == old(self).mints@.insert(
                accounts.mint@,
                Mint { authority: accounts.mint, supply: 1, decimals: 0 },
            ),
            r is Ok ==> final(self).accounts@ == old(self).accounts@.insert(
                accounts.mint_account@,
                TokenAccount { mint: accounts.mint, owner: accounts.signer, amount: 1 },
            ),
            r is Ok ==> final(self).contracts.entries@ == old(self).contracts.entries@.push(
                (accounts.contract, final(self).contracts@[accounts.contract@]),
            ),
            vault_address(accounts.mint@, old(self).program_id@) != Some(accounts.mint_account@) ==> forall|
                cur: Seq<u8>,
            | #[trigger] old(self).conserved(cur) ==> final(self).conserved(cur),
            final(self).program_id == old(self).program_id,
            final(self).state == old(self).state,
            final(self).approvers == old(self).approvers,
    {
        if self.contracts.find(&accounts.contract).is_some() {
            return Err(LedgerError::AccountInUse);
        }
        match find_mint_address(&accounts.contract, &self.program_id) {
            Some(m) => if !m.same(&accounts.mint) {
                return Err(LedgerError::SeedsMismatch);
            },
            None => return Err(LedgerError::SeedsMismatch),
        }
        if self.mints.find(&accounts.mint).is_some() {
            return Err(LedgerError::AccountInUse);
        }
        if self.accounts.find(&accounts.mint_account).is_some() {
            return Err(LedgerError::AccountInUse);
        }
        match find_vault_address(&accounts.pay_mint, &self.program_id) {
            Some(v) => if !v.same(&accounts.vault) {
                return Err(LedgerError::SeedsMismatch);
            },
            None => return Err(LedgerError::SeedsMismatch),
        }
        if self.accounts.find(&accounts.vault).is_none() {
            return Err(LedgerError::AccountNotFound);
        }
        let contract = match Contract::new(
            accounts.recipient,
            accounts.mint,
            accounts.pay_mint,
            amount_due,
            due_date,
            accounts.signer,
            clock,
        ) {
            Ok(c) => c,
            Err(e) => return Err(LedgerError::Program(e)),
        };
        let ghost pre = *self;
        self.contracts.insert(accounts.contract, contract);
        assert(self.contracts.entries@.drop_last() =~= pre.contracts.entries@);
        self.mints.insert(accounts.mint, Mint { authority: accounts.mint, supply: 1, decimals: 0 });
        self.accounts.insert(
            accounts.mint_account,
            TokenAccount { mint: accounts.mint, owner: accounts.signer, amount: 1 },
        );
        assert forall|cur: Seq<u8>| #[trigger] pre.conserved(cur) && vault_address(accounts.mint@, self.program_id@)
            != Some(accounts.mint_account@) implies self.conserved(cur) by {
            if let Some(w) = vault_address(cur, self.program_id@) {
                if w != accounts.mint_account@ {
                    assert(self.accounts@[w] == pre.accounts@[w]);
                }
            }
        }
        assert forall|k: Seq<u8>| #[trigger] self.contracts@.contains_key(k) implies self.mints@.contains_key(
            self.contracts@[k].mint@,
        ) && mint_address(k, self.program_id@) == Some(self.contracts@[k].mint@) by {
            if k != accounts.contract@ {
                assert(pre.contracts@.contains_key(k));
            }
        }
        assert forall|k1: Seq<u8>, k2: Seq<u8>|
            #[trigger] self.contracts@.contains_key(k1) && #[trigger] self.contracts@.contains_key(k2) && k1 != k2
                implies self.contracts@[k1].mint@ != self.contracts@[k2].mint@ by {
            if k1 != accounts.contract@ {
                assert(pre.contracts@.contains_key(k1));
            }
            if k2 != accounts.contract@ {
                assert(pre.contracts@.contains_key(k2));
            }
        }
        Ok(())
    }

    /// Records that the signer lets `accounts.delegate` approve its contracts.
    pub fn set_approver(&mut self, accounts: SetApprover) -> (r: Result<(), LedgerError>)
        requires
            old(self).wf(),
        ensures
            final(self).wf(),
            r == outcome(old(self).set_approver_error(accounts)),
            r is Err ==> *final(self) == *old(self),
            r is Ok ==> final(self).approvers@ == old(self).approvers@.insert(
                accounts.approver@,
                final(self).approvers@[accounts.approver@],
            ),
            r is Ok ==> final(self).approvers@[accounts.approver@].admin == accounts.signer,
            r is Ok ==> final(self).approvers@[accounts.approver@].key == accounts.delegate,
            r is Ok ==> final(self).approvers@[accounts.approver@].balance == 0
                && final(self).approvers@[accounts.approver@].budget == 0
                && final(self).approvers@[accounts.approver@].budget_mint@ == null_view(),
            final(self).program_id == old(self).program_id,
            final(self).state == old(self).state,
            final(self).contracts == old(self).contracts,
            final(self).mints == old(self).mints,
            final(self).accounts == old(self).accounts,
    {
        match find_approver_address(&accounts.signer, &accounts.delegate, &self.program_id) {
            Some(a) => if !a.same(&accounts.approver) {
                return Err(LedgerError::SeedsMismatch);
            },
            None => return Err(LedgerError::SeedsMismatch),
        }
        if self.approvers.find(&accounts.approver).is_some() {
            return Err(LedgerError::AccountInUse);
        }
        let ghost pre = *self;
        self.approvers.insert(accounts.approver, Approver::new(accounts.signer, accounts.delegate));
        assert forall|a: Seq<u8>| #[trigger] self.approvers@.contains_key(a) implies approver_address(
            self.approvers@[a].admin@,
            self.approvers@[a].key@,
            self.program_id@,
        ) == Some(a) by {
            if a != accounts.approver@ {
                assert(pre.approvers@.contains_key(a));
            }
        }
        Ok(())
    }

    /// Approves a contract on behalf of the signer: the recipient itself, or
    /// one of its delegates.
    pub fn approve(&mut self, accounts: Approve, clock: Clock) -> (r: Result<(), LedgerError>)
        requires
            old(self).wf(),
        ensures
            final(self).wf(),
            r == outcome(old(self).approve_error(accounts)),
            r is Err ==> *final(self) == *old(self),
            r is Ok ==> final(self).contracts@ == old(self).contracts@.insert(
                accounts.contract@,
                approved(old(self).contracts@[accounts.contract@], accounts.signer, clock),
            ),
            r is Ok ==> final(self).contracts.entries@ == old(self).contracts.entries@.update(
                old(self).contracts.index_of(accounts.contract@),
                (
                    old(self).contracts.entries@[old(self).contracts.index_of(accounts.contract@)].0,
                    approved(old(self).contracts@[accounts.contract@], accounts.signer, clock),
                ),
            ),
            forall|cur: Seq<u8>| #[trigger] old(self).conserved(cur) ==> final(self).conserved(cur),
            final(self).program_id == old(self).program_id,
            final(self).state == old(self).state,
            final(self).approvers == old(self).approvers,
            final(self).mints == old(self).mints,
            final(self).accounts == old(self).accounts,
    {
        let i = match self.contracts.find(&accounts.contract) {
            Some(i) => i,
            None => return Err(LedgerError::AccountNotFound),
        };
        let mut contract = self.contracts.entries[i].1;
        let record = match find_approver_address(&contract.recipient, &accounts.signer, &self.program_id) {
            Some(a) => match self.approvers.find(&a) {
                Some(j) => Some(self.approvers.entries[j].1),
                None => None,
            },
            None => None,
        };
        match contract.approve(accounts.signer, record, clock) {
            Ok(()) => {},
            Err(e) => return Err(LedgerError::Program(e)),
        }
        let ghost pre = *self;
        self.contracts.set(i, contract);
        proof {
            assert forall|cur: Seq<u8>| #[trigger] pre.conserved(cur) implies self.conserved(cur) by {
                lemma_total_update(pre.contracts.entries@, i as int, (pre.contracts.entries@[i as int].0, contract), cur);
            }
        }
        assert forall|k: Seq<u8>| #[trigger] self.contracts@.contains_key(k) implies self.mints@.contains_key(
            self.contracts@[k].mint@,
        ) && mint_address(k, self.program_id@) == Some(self.contracts@[k].mint@) by {
            assert(pre.contracts@.contains_key(k));
        }
        assert forall|k1: Seq<u8>, k2: Seq<u8>|
            #[trigger] self.contracts@.contains_key(k1) && #[trigger] self.contracts@.contains_key(k2) && k1 != k2
                implies self.contracts@[k1].mint@ != self.contracts@[k2].mint@ by {
            assert(pre.contracts@.contains_key(k1));
            assert(pre.contracts@.contains_key(k2));
        }
        Ok(())
    }

    /// Settles a contract: moves its `amount_due` from the signer's holding
    /// into the vault of its currency and marks it paid.
    pub fn pay(&mut self, accounts: Pay, clock: Clock) -> (r: Result<(), LedgerError>)
        requires
            old(self).wf(),
        ensures
            final(self).wf(),
            r == outcome(old(self).pay_error(accounts)),
            r is Err ==> *final(self) == *old(self),
            r is Ok ==> final(self).accounts@ == transferred(
                old(self).accounts@,
                accounts.source@,
                accounts.vault@,
                old(self).contracts@[accounts.contract@].amount_due,
            ),
            r is Ok ==> final(self).contracts@ == old(self).contracts@.insert(
                accounts.contract@,
                paid(old(self).contracts@[accounts.contract@], accounts.signer, clock),
            ),
            r is Ok && old(self).contracts@[accounts.contract@].status != Status::Paid && accounts.source@
                != accounts.vault@ ==> forall|cur: Seq<u8>| #[trigger]
                old(self).conserved(cur) ==> final(self).conserved(cur),
            r is Ok ==> final(self).contracts.entries@ == old(self).contracts.entries@.update(
                old(self).contracts.index_of(accounts.contract@),
                (
                    old(self).contracts.entries@[old(self).contracts.index_of(accounts.contract@)].0,
                    paid(old(self).contracts@[accounts.contract@], accounts.signer, clock),
                ),
            ),
            final(self).program_id == old(self).program_id,
            final(self).state == old(self).state,
            final(self).approvers == old(self).approvers,
            final(self).mints == old(self).mints,
    {
        let ghost start = *self;
        let i = match self.contracts.find(&accounts.contract) {
            Some(i) => i,
            None => return Err(LedgerError::AccountNotFound),
        };
        let mut contract = self.contracts.entries[i].1;
        let si = match self.accounts.find(&accounts.source) {
            Some(j) => j,
            None => return Err(LedgerError::AccountNotFound),
        };
        if !self.accounts.entries[si].1.mint.same(&accounts.pay_mint) {
            return Err(LedgerError::ConstraintViolated);
        }
        if !accounts.signer.same(&contract.recipient) {
            return Err(LedgerError::ConstraintViolated);
        }
        match find_vault_address(&accounts.pay_mint, &self.program_id) {
            Some(v) => if !v.same(&accounts.vault) {
                return Err(LedgerError::SeedsMismatch);
            },
            None => return Err(LedgerError::SeedsMismatch),
        }
        if self.accounts.find(&accounts.vault).is_none() {
            return Err(LedgerError::AccountNotFound);
        }
        if !accounts.pay_mint.same(&contract.pay_mint) {
            return Err(LedgerError::MintMismatch);
        }
        self.transfer(&accounts.source, &accounts.vault, &accounts.signer, contract.amount_due)?;
        let ghost unpaid = contract.status != Status::Paid;
        contract.record_payment(accounts.signer, clock);
        let ghost pre = *self;
        self.contracts.set(i, contract);
        proof {
            if unpaid && accounts.source@ != accounts.vault@ {
                assert forall|cur: Seq<u8>| #[trigger] start.conserved(cur) implies self.conserved(cur) by {
                    lemma_pay_conserves(start, *self, accounts, clock, cur);
                }
            }
        }
        assert forall|k: Seq<u8>| #[trigger] self.contracts@.contains_key(k) implies self.mints@.contains_key(
            self.contracts@[k].mint@,
        ) && mint_address(k, self.program_id@) == Some(self.contracts@[k].mint@) by {
            assert(pre.contracts@.contains_key(k));
        }
        assert forall|k1: Seq<u8>, k2: Seq<u8>|
            #[trigger] self.contracts@.contains_key(k1) && #[trigger] self.contracts@.contains_key(k2) && k1 != k2
                implies self.contracts@[k1].mint@ != self.contracts@[k2].mint@ by {
            assert(pre.contracts@.contains_key(k1));
            assert(pre.contracts@.contains_key(k2));
        }
        Ok(())
    }

    /// Closes a contract: moves its `amount_due` from the vault to the
    /// `accounts.recipient` holding, burns the signer's representative token
    /// and deletes the contract record.
    pub fn redeem(&mut self, accounts: Redeem) -> (r: Result<(), LedgerError>)
        requires
            old(self).wf(),
        ensures
            final(self).wf(),
            r == outcome(old(self).redeem_error(accounts)),
            r is Err ==> *final(self) == *old(self),
            r is Ok ==> final(self).accounts@ == transferred(
                old(self).accounts@,
                accounts.vault@,
                accounts.recipient@,
                old(self).contracts@[accounts.contract@].amount_due,
            ).insert(accounts.nft_account@, TokenAccount { amount: 0, ..old(self).accounts@[accounts.nft_account@] }),
            r is Ok ==> final(self).mints@ == old(self).mints@.insert(
                accounts.mint@,
                Mint { supply: (old(self).mints@[accounts.mint@].supply - 1) as u64, ..old(self).mints@[accounts.mint@] },
            ),
            r is Ok ==> final(self).contracts@ == old(self).contracts@.remove(accounts.contract@),
            r is Ok ==> old(self).accounts@[accounts.nft_account@].amount == 1
                && final(self).accounts@[accounts.nft_account@].amount == 0
                && !final(self).contracts@.contains_key(accounts.contract@),
            r is Ok && old(self).contracts@[accounts.contract@].status == Status::Paid && accounts.recipient@
                != accounts.vault@ && vault_address(old(self).contracts@[accounts.contract@].mint@, old(self).program_id@)
                != Some(accounts.nft_account@) ==> forall|cur: Seq<u8>| #[trigger]
                old(self).conserved(cur) ==> final(self).conserved(cur),
            r is Ok ==> final(self).contracts.entries@ == old(self).contracts.entries@.remove(
                old(self).contracts.index_of(accounts.contract@),
            ),
            final(self).program_id == old(self).program_id,
            final(self).state == old(self).state,
            final(self).approvers == old(self).approvers,
    {
        let ghost start = *self;
        let i = match self.contracts.find(&accounts.contract) {
            Some(i) => i,
            None => return Err(LedgerError::AccountNotFound),
        };
        let contract = self.contracts.entries[i].1;
        if !accounts.creator.same(&contract.creator) {
            return Err(LedgerError::ConstraintViolated);
        }
        let ni = match self.accounts.find(&accounts.nft_account) {
            Some(j) => j,
            None => return Err(LedgerError::AccountNotFound),
        };
        let nft = self.accounts.entries[ni].1;
        if !nft.mint.same(&contract.mint) || nft.amount != 1 || !nft.owner.same(&accounts.signer) {
            return Err(LedgerError::ConstraintViolated);
        }
        if self.accounts.find(&accounts.recipient).is_none() {
            return Err(LedgerError::AccountNotFound);
        }
        match find_vault_address(&accounts.pay_mint, &self.program_id) {
            Some(v) => if !v.same(&accounts.vault) {
                return Err(LedgerError::SeedsMismatch);
            },
            None => return Err(LedgerError::SeedsMismatch),
        }
        let vi = match self.accounts.find(&accounts.vault) {
            Some(j) => j,
            None => return Err(LedgerError::AccountNotFound),
        };
        let mi = match self.mints.find(&accounts.mint) {
            Some(j) => j,
            None => return Err(LedgerError::AccountNotFound),
        };
        if !accounts.pay_mint.same(&contract.pay_mint) || !self.accounts.entries[vi].1.mint.same(&accounts.pay_mint) {
            return Err(LedgerError::MintMismatch);
        }
        if accounts.nft_account.same(&accounts.vault) || accounts.nft_account.same(&accounts.recipient) {
            return Err(LedgerError::ConstraintViolated);
        }
        if !accounts.mint.same(&nft.mint) {
            return Err(LedgerError::MintMismatch);
        }
        let mint = self.mints.entries[mi].1;
        if mint.supply < 1 {
            return Err(LedgerError::Overflow);
        }
        self.transfer(&accounts.vault, &accounts.recipient, &accounts.vault, contract.amount_due)?;
        let ghost pre = *self;
        let ni2 = match self.accounts.find(&accounts.nft_account) {
            Some(j) => j,
            None => {
                assert(false);
                return Err(LedgerError::AccountNotFound);
            },
        };
        self.accounts.set(ni2, TokenAccount { amount: 0, ..nft });
        self.mints.set(mi, Mint { supply: mint.supply - 1, ..mint });
        self.contracts.remove(i);
        proof {
            if contract.status == Status::Paid && accounts.recipient@ != accounts.vault@ && vault_address(
                contract.mint@,
                self.program_id@,
            ) != Some(accounts.nft_account@) {
                assert forall|cur: Seq<u8>| #[trigger] start.conserved(cur) implies self.conserved(cur) by {
                    lemma_redeem_conserves(start, *self, accounts, cur);
                }
            }
        }
        assert forall|k: Seq<u8>| #[trigger] self.contracts@.contains_key(k) implies self.mints@.contains_key(
            self.contracts@[k].mint@,
        ) && mint_address(k, self.program_id@) == Some(self.contracts@[k].mint@) by {
            assert(pre.contracts@.contains_key(k));
        }
        assert forall|k1: Seq<u8>, k2: Seq<u8>|
            #[trigger] self.contracts@.contains_key(k1) && #[trigger] self.contracts@.contains_key(k2) && k1 != k2
                implies self.contracts@[k1].mint@ != self.contracts@[k2].mint@ by {
            assert(pre.contracts@.contains_key(k1));
            assert(pre.contracts@.contains_key(k2));
        }
        Ok(())
    }
}

proof fn lemma_total_update(s: Seq<(Address, Contract)>, i: int, e: (Address, Contract), cur: Seq<u8>)
    requires
        0 <= i < s.len(),
    ensures
        paid_total(s.update(i, e), cur) == paid_total(s, cur) - paid_in(s[i].1, cur) + paid_in(e.1, cur),
    decreases s.len(),
{
    if i == s.len() - 1 {
        assert(s.update(i, e).drop_last() =~= s.drop_last());
    } else {
        lemma_total_update(s.drop_last(), i, e, cur);
        assert(s.update(i, e).drop_last() =~= s.drop_last().update(i, e));
    }
}

proof fn lemma_total_remove(s: Seq<(Address, Contract)>, i: int, cur: Seq<u8>)
    requires
        0 <= i < s.len(),
    ensures
        paid_total(s.remove(i), cur) == paid_total(s, cur) - paid_in(s[i].1, cur),
    decreases s.len(),
{
    if i == s.len() - 1 {
        assert(s.remove(i) =~= s.drop_last());
    } else {
        lemma_total_remove(s.drop_last(), i, cur);
        assert(s.remove(i).drop_last() =~= s.drop_last().remove(i));
        assert(s.remove(i).last() == s.last());
    }
}

proof fn lemma_pay_conserves(pre: Ledger, post: Ledger, a: Pay, clock: Clock, cur: Seq<u8>)
    requires
        pre.wf(),
        pre.pay_error(a) is None,
        post.program_id == pre.program_id,
        post.accounts@ == transferred(pre.accounts@, a.source@, a.vault@, pre.contracts@[a.contract@].amount_due),
        post.contracts.entries@ == pre.contracts.entries@.update(
            pre.contracts.index_of(a.contract@),
            (
                pre.contracts.entries@[pre.contracts.index_of(a.contract@)].0,
                paid(pre.contracts@[a.contract@], a.signer, clock),
            ),
        ),
        pre.contracts@[a.contract@].status != Status::Paid,
        a.source@ != a.vault@,
        pre.conserved(cur),
    ensures
        post.conserved(cur),
{
    let k = a.contract@;
    let c = pre.contracts@[k];
    let idx = pre.contracts.index_of(k);
    assert(pre.contracts.contains(k));
    pre.contracts.lemma_entry(idx);
    lemma_total_update(pre.contracts.entries@, idx, (pre.contracts.entries@[idx].0, paid(c, a.signer, clock)), cur);
    if let Some(w) = vault_address(cur, pre.program_id@) {
        if w != a.vault@ && w != a.source@ && cur != a.pay_mint@ {
            assert(post.accounts@[w] == pre.accounts@[w]);
        }
    }
}

proof fn lemma_redeem_conserves(pre: Ledger, post: Ledger, a: Redeem, cur: Seq<u8>)
    requires
        pre.wf(),
        pre.redeem_error(a) is None,
        post.program_id == pre.program_id,
        post.accounts@ == transferred(
            pre.accounts@,
            a.vault@,
            a.recipient@,
            pre.contracts@[a.contract@].amount_due,
        ).insert(a.nft_account@, TokenAccount { amount: 0, ..pre.accounts@[a.nft_account@] }),
        post.contracts.entries@ == pre.contracts.entries@.remove(pre.contracts.index_of(a.contract@)),
        pre.contracts@[a.contract@].status == Status::Paid,
        a.recipient@ != a.vault@,
        vault_address(pre.contracts@[a.contract@].mint@, pre.program_id@) != Some(a.nft_account@),
        pre.conserved(cur),
    ensures
        post.conserved(cur),
{
    let k = a.contract@;
    let c = pre.contracts@[k];
    let idx = pre.contracts.index_of(k);
    assert(pre.contracts.contains(k));
    pre.contracts.lemma_entry(idx);
    lemma_total_remove(pre.contracts.entries@, idx, cur);
    if let Some(w) = vault_address(cur, pre.program_id@) {
        if w != a.vault@ && w != a.recipient@ && w != a.nft_account@ && cur != a.pay_mint@ {
            assert(post.accounts@[w] == pre.accounts@[w]);
        }
    }
}

} // verus!
