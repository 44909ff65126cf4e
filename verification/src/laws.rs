//! The laws of the escrow: what the two transitions guarantee, proved over
//! the model that the operations' contracts are stated in.

use vstd::prelude::*;

use crate::authority::{custody_address, record_address};
use crate::error::EscrowError;
use crate::model::{balance_of, escrow_invariant, initialize_checks, initialize_effect,
    record_backed, take_checks, take_effect, EscrowView, InitializeEscrowView, TakeEscrowView,
    WorldView};

verus! {

/// A valid Initialize leaves the custody holding with exactly the offered
/// amount under the custodial authority, debits the funding account by the
/// same amount, and creates exactly one new record, all of whose fields
/// match the inputs.
pub proof fn initialize_settles_funds(
    w: WorldView,
    c: InitializeEscrowView,
    initializer_amount: u64,
    taker_amount: u64,
    rec_addr: Seq<u8>,
    cus_addr: Seq<u8>,
)
    requires
        escrow_invariant(w),
        initializer_amount >= 1,
        taker_amount >= 1,
        initialize_checks(w, c, initializer_amount, taker_amount) is None,
        record_address(w.program_id, c.initializer, c.token_mint) == Some(rec_addr),
        custody_address(w.program_id, c.initializer, c.token_mint) == Some(cus_addr),
    ensures
        ({
            let w2 = initialize_effect(w, c, initializer_amount, taker_amount);
            &&& w2.ledger.contains_key(cus_addr)
            &&& w2.ledger[cus_addr].balance == initializer_amount as int
            &&& w2.ledger[cus_addr].authority == w.authority
            &&& w2.ledger[c.initializer_token_account_send].balance == w.ledger[c.initializer_token_account_send].balance
                - initializer_amount as int
            &&& !w.records.contains_key(rec_addr)
            &&& w2.records.contains_key(rec_addr)
            &&& w2.records[rec_addr] == (EscrowView {
                is_initialized: true,
                initializer: c.initializer,
                initializer_token_account_receive: c.initializer_token_account_receive,
                escrow_token_account: cus_addr,
                initializer_amount,
                taker_amount,
            })
            &&& w2.records.dom() == w.records.dom().insert(rec_addr)
        }),
{
    let w2 = initialize_effect(w, c, initializer_amount, taker_amount);
    assert(c.initializer_token_account_send != cus_addr);
    assert(w2.records.dom() =~= w.records.dom().insert(rec_addr));
}

/// A valid Take credits the initializer's receiving account by the stored
/// `taker_amount`, credits the taker's receiving account by the stored
/// `initializer_amount`, debits the custody holding to zero, and deletes
/// the record. The three accounts the Take moves funds between are taken
/// pairwise distinct: where the taker pays itself, the plain reading of
/// "credited by" does not apply.
pub proof fn take_settles_trade(
    w: WorldView,
    c: TakeEscrowView,
    initializer_amount: u64,
    taker_amount: u64,
)
    requires
        escrow_invariant(w),
        take_checks(w, c, initializer_amount, taker_amount) is None,
        c.initializer_token_account_receive != c.taker_token_account_send,
        c.taker_token_account_receive != c.taker_token_account_send,
        c.taker_token_account_receive != c.initializer_token_account_receive,
    ensures
        ({
            let w2 = take_effect(w, c, initializer_amount, taker_amount);
            &&& balance_of(w2.ledger, c.initializer_token_account_receive) == balance_of(
                w.ledger,
                c.initializer_token_account_receive,
            ) + taker_amount as int
            &&& balance_of(w2.ledger, c.taker_token_account_receive) == balance_of(
                w.ledger,
                c.taker_token_account_receive,
            ) + initializer_amount as int
            &&& w2.ledger.contains_key(c.escrow_token_account)
            &&& w2.ledger[c.escrow_token_account].balance == 0
            &&& !w2.records.contains_key(c.escrow_state_account)
            &&& w2.records.dom() == w.records.dom().remove(c.escrow_state_account)
        }),
{
    let w2 = take_effect(w, c, initializer_amount, taker_amount);
    assert(record_backed(w, c.escrow_state_account));
    assert(w.ledger[c.taker_token_account_send].authority == c.taker);
    assert(c.taker != w.authority);
    assert(w.ledger[c.escrow_token_account].authority == w.authority);
    assert(c.escrow_token_account != c.taker_token_account_send);
    assert(c.escrow_token_account != c.initializer_token_account_receive);
    assert(c.escrow_token_account != c.taker_token_account_receive);
    assert(w2.records.dom() =~= w.records.dom().remove(c.escrow_state_account));
}

/// Replay protection: after a Take settles a record, any further Take
/// naming the same record address is rejected as `RecordNotFound` and
/// re-executes no transfers.
pub proof fn take_replay_rejected(
    w: WorldView,
    c: TakeEscrowView,
    initializer_amount: u64,
    taker_amount: u64,
    c2: TakeEscrowView,
    second_initializer_amount: u64,
    second_taker_amount: u64,
)
    requires
        take_checks(w, c, initializer_amount, taker_amount) is None,
        c2.escrow_state_account == c.escrow_state_account,
    ensures
        take_checks(
            take_effect(w, c, initializer_amount, taker_amount),
            c2,
            second_initializer_amount,
            second_taker_amount,
        ) == Some(EscrowError::RecordNotFound),
{
}

/// Collision protection: after an Initialize succeeds for an
/// (initializer, asset) pair, any further Initialize for the same pair is
/// rejected as `RecordCollision`, whatever its other inputs.
pub proof fn initialize_collision_rejected(
    w: WorldView,
    c: InitializeEscrowView,
    initializer_amount: u64,
    taker_amount: u64,
    c2: InitializeEscrowView,
    second_initializer_amount: u64,
    second_taker_amount: u64,
)
    requires
        initialize_checks(w, c, initializer_amount, taker_amount) is None,
        c2.initializer == c.initializer,
        c2.token_mint == c.token_mint,
    ensures
        initialize_checks(
            initialize_effect(w, c, initializer_amount, taker_amount),
            c2,
            second_initializer_amount,
            second_taker_amount,
        ) == Some(EscrowError::RecordCollision),
{
}

/// Terms protection: a Take against an open record whose stored
/// `taker_amount` differs from the supplied one is rejected as
/// `TermsMismatch`.
pub proof fn take_mismatch_rejected(
    w: WorldView,
    c: TakeEscrowView,
    initializer_amount: u64,
    taker_amount: u64,
)
    requires
        escrow_invariant(w),
        w.records.contains_key(c.escrow_state_account),
        w.records[c.escrow_state_account].taker_amount != taker_amount,
    ensures
        take_checks(w, c, initializer_amount, taker_amount) == Some(EscrowError::TermsMismatch),
{
    assert(record_backed(w, c.escrow_state_account));
}

/// Funding protection: an Initialize whose funding account holds less than
/// the offered amount is rejected as `InsufficientFunds`, creates no
/// record and attempts no transfer.
pub proof fn initialize_insufficient_rejected(
    w: WorldView,
    c: InitializeEscrowView,
    initializer_amount: u64,
    taker_amount: u64,
    rec_addr: Seq<u8>,
    cus_addr: Seq<u8>,
)
    requires
        record_address(w.program_id, c.initializer, c.token_mint) == Some(rec_addr),
        custody_address(w.program_id, c.initializer, c.token_mint) == Some(cus_addr),
        !w.records.contains_key(rec_addr),
        !w.ledger.contains_key(cus_addr),
        w.ledger.contains_key(c.initializer_token_account_send),
        w.ledger[c.initializer_token_account_send].balance < initializer_amount as int,
    ensures
        initialize_checks(w, c, initializer_amount, taker_amount) == Some(
            EscrowError::InsufficientFunds,
        ),
{
}

} // verus!

