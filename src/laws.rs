use vstd::prelude::*;

use crate::address::{mint_address, null_view};
use crate::ledger::{Ledger, LedgerError};
use crate::records::{approved, Approve, Clock, Create, ErrorCode, Redeem};

verus! {

/// Each contract has a representative mint of its own: the mint sits at the
/// address derived from the contract's identity, is registered, and no two
/// contracts share one.
pub proof fn lemma_mint_per_contract(l: Ledger, k1: Seq<u8>, k2: Seq<u8>)
    requires
        l.wf(),
        l.contracts@.contains_key(k1),
        l.contracts@.contains_key(k2),
        k1 != k2,
    ensures
        l.contracts@[k1].mint@ != l.contracts@[k2].mint@,
        l.mints@.contains_key(l.contracts@[k1].mint@),
        mint_address(k1, l.program_id@) == Some(l.contracts@[k1].mint@),
{
}

/// A representative token is minted once: `create` is refused when the
/// contract or its mint already exists, so no second unit can be minted.
pub proof fn lemma_mint_once(l: Ledger, a: Create, due_date: i64, clock: Clock)
    requires
        l.wf(),
        l.contracts@.contains_key(a.contract@) || l.mints@.contains_key(a.mint@),
    ensures
        l.create_error(a, due_date, clock) is Some,
        l.contracts@.contains_key(a.contract@) ==> l.create_error(a, due_date, clock) == Some(
            LedgerError::AccountInUse,
        ),
{
}

/// Approval happens at most once: once a non-null signer has approved a
/// contract, every later `approve` of it fails with `ExistingApproval`.
pub proof fn lemma_approve_at_most_once(l: Ledger, after: Ledger, a: Approve, clock: Clock, b: Approve)
    requires
        l.wf(),
        l.approve_error(a) is None,
        a.signer@ != null_view(),
        after.contracts@ == l.contracts@.insert(a.contract@, approved(l.contracts@[a.contract@], a.signer, clock)),
        b.contract@ == a.contract@,
    ensures
        after.approve_error(b) == Some(LedgerError::Program(ErrorCode::ExistingApproval)),
{
}

/// Who may approve: on an unapproved contract, `approve` succeeds exactly when
/// the signer is the recipient or a delegation record of the recipient names
/// the signer; otherwise it fails with `UnauthorizedApprover`.
pub proof fn lemma_approve_authority(l: Ledger, a: Approve)
    requires
        l.wf(),
        l.contracts@.contains_key(a.contract@),
        l.contracts@[a.contract@].approver@ == null_view(),
    ensures
        (l.approve_error(a) is None) <==> (l.contracts@[a.contract@].recipient@ == a.signer@ || exists|r: Seq<u8>|
            #[trigger] l.approvers@.contains_key(r) && l.approvers@[r].admin@ == l.contracts@[a.contract@].recipient@
                && l.approvers@[r].key@ == a.signer@),
        l.approve_error(a) is Some ==> l.approve_error(a) == Some(
            LedgerError::Program(ErrorCode::UnauthorizedApprover),
        ),
{
    let c = l.contracts@[a.contract@];
    if l.approve_error(a) is None && c.recipient@ != a.signer@ {
        let r = crate::address::approver_address(c.recipient@, a.signer@, l.program_id@)->Some_0;
        assert(l.approvers@.contains_key(r));
    }
    if exists|r: Seq<u8>|
        #[trigger] l.approvers@.contains_key(r) && l.approvers@[r].admin@ == c.recipient@ && l.approvers@[r].key@
            == a.signer@ {
        let r = choose|r: Seq<u8>|
            #[trigger] l.approvers@.contains_key(r) && l.approvers@[r].admin@ == c.recipient@ && l.approvers@[r].key@
                == a.signer@;
        assert(crate::address::approver_address(c.recipient@, a.signer@, l.program_id@) == Some(r));
    }
}

/// A contract is redeemed once: when its record is gone, `redeem` fails.
pub proof fn lemma_redeem_once(l: Ledger, a: Redeem)
    requires
        !l.contracts@.contains_key(a.contract@),
    ensures
        l.redeem_error(a) == Some(LedgerError::AccountNotFound),
{
}

} // verus!
