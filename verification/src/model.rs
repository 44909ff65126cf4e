//! The mathematical model of the escrow world and its two transitions.
//!
//! The world is the record store and the asset ledger, both maps from byte
//! addresses, together with the program identity and its derived custodial
//! authority. `initialize_checks` and `take_checks` give the first
//! rejection an operation meets, in the order the preconditions are
//! checked; `initialize_effect` and `take_effect` give the state a
//! successful operation leaves.

use vstd::prelude::*;

use crate::authority::{authority_address, custody_address, record_address};
use crate::error::EscrowError;

verus! {

/// The content of one ledger holding: who may authorize debits from it,
/// and its balance. The model's balance is unbounded; the executable
/// ledger keeps it in a machine word.
#[verifier::ext_equal]
pub ghost struct AccountView {
    pub authority: Seq<u8>,
    pub balance: int,
}

/// The content of one escrow record: the six fields that bind the two legs
/// of the trade.
#[verifier::ext_equal]
pub ghost struct EscrowView {
    pub is_initialized: bool,
    pub initializer: Seq<u8>,
    pub initializer_token_account_receive: Seq<u8>,
    pub escrow_token_account: Seq<u8>,
    pub initializer_amount: u64,
    pub taker_amount: u64,
}

/// The whole escrow world: program identity, derived custodial authority,
/// the asset ledger and the record store.
#[verifier::ext_equal]
pub ghost struct WorldView {
    pub program_id: Seq<u8>,
    pub authority: Seq<u8>,
    pub authority_bump: u8,
    pub ledger: Map<Seq<u8>, AccountView>,
    pub records: Map<Seq<u8>, EscrowView>,
}

/// The inputs of an Initialize: the signing initializer, the funding
/// account, the account that must later receive the taker's payment, and
/// the asset's identity.
#[verifier::ext_equal]
pub ghost struct InitializeEscrowView {
    pub initializer: Seq<u8>,
    pub initializer_token_account_send: Seq<u8>,
    pub initializer_token_account_receive: Seq<u8>,
    pub token_mint: Seq<u8>,
}

/// The inputs of a Take: the signing taker, the taker's paying and
/// receiving accounts, the initializer and receiving account the taker
/// believes apply, the record's address and the custody account named in
/// the record.
#[verifier::ext_equal]
pub ghost struct TakeEscrowView {
    pub taker: Seq<u8>,
    pub taker_token_account_send: Seq<u8>,
    pub taker_token_account_receive: Seq<u8>,
    pub initializer: Seq<u8>,
    pub initializer_token_account_receive: Seq<u8>,
    pub escrow_state_account: Seq<u8>,
    pub escrow_token_account: Seq<u8>,
}

/// The balance of a holding, zero when the ledger has none at the address.
pub open spec fn balance_of(l: Map<Seq<u8>, AccountView>, a: Seq<u8>) -> int {
    if l.contains_key(a) {
        l[a].balance
    } else {
        0
    }
}

/// The ledger after a credit: the balance at `to` grows by `amount`; a
/// holding that does not exist yet is opened under its own identity.
pub open spec fn credit(l: Map<Seq<u8>, AccountView>, to: Seq<u8>, amount: int) -> Map<
    Seq<u8>,
    AccountView,
> {
    if l.contains_key(to) {
        l.insert(to, AccountView { authority: l[to].authority, balance: l[to].balance + amount })
    } else {
        l.insert(to, AccountView { authority: to, balance: amount })
    }
}

/// The ledger after a debit of a holding it contains.
pub open spec fn debit(l: Map<Seq<u8>, AccountView>, from: Seq<u8>, amount: int) -> Map<
    Seq<u8>,
    AccountView,
> {
    l.insert(from, AccountView { authority: l[from].authority, balance: l[from].balance - amount })
}

/// One record is backed by the world: it is live, its amounts are
/// positive, its custody holding exists under the custodial authority and
/// holds exactly the locked amount, and its initializer is not the keyless
/// authority.
pub open spec fn record_backed(w: WorldView, a: Seq<u8>) -> bool {
    let r = w.records[a];
    &&& r.is_initialized
    &&& r.initializer_amount >= 1
    &&& r.taker_amount >= 1
    &&& r.initializer != w.authority
    &&& w.ledger.contains_key(r.escrow_token_account)
    &&& w.ledger[r.escrow_token_account].authority == w.authority
    &&& w.ledger[r.escrow_token_account].balance == r.initializer_amount as int
}

/// The invariant of the escrow world: the authority is the one derived
/// from the program identity, every open record is backed, and no two
/// records share a custody holding.
pub open spec fn escrow_invariant(w: WorldView) -> bool {
    &&& w.program_id.len() == 32
    &&& authority_address(w.program_id) == Some((w.authority, w.authority_bump))
    &&& forall|a: Seq<u8>| #[trigger] w.records.contains_key(a) ==> record_backed(w, a)
    &&& forall|a: Seq<u8>, b: Seq<u8>|
        #![trigger w.records[a].escrow_token_account, w.records[b].escrow_token_account]
        w.records.contains_key(a) && w.records.contains_key(b)
            && w.records[a].escrow_token_account == w.records[b].escrow_token_account ==> a == b
}

/// The first rejection an Initialize meets, in the order the operation
/// checks its preconditions, or `None` when it succeeds. A pair for which
/// no record or custody address can be derived is rejected as a collision:
/// no record can ever occupy such an address.
pub open spec fn initialize_checks(
    w: WorldView,
    c: InitializeEscrowView,
    initializer_amount: u64,
    taker_amount: u64,
) -> Option<EscrowError> {
    match (
        record_address(w.program_id, c.initializer, c.token_mint),
        custody_address(w.program_id, c.initializer, c.token_mint),
    ) {
        (Some(rec_addr), Some(cus_addr)) => if w.records.contains_key(rec_addr) {
            Some(EscrowError::RecordCollision)
        } else if w.ledger.contains_key(cus_addr) {
            Some(EscrowError::RecordCollision)
        } else if !w.ledger.contains_key(c.initializer_token_account_send) || w.ledger[c.initializer_token_account_send].balance
            < initializer_amount as int {
            Some(EscrowError::InsufficientFunds)
        } else if c.initializer == w.authority || w.ledger[c.initializer_token_account_send].authority
            != c.initializer {
            Some(EscrowError::NotAuthorized)
        } else {
            None
        },
        _ => Some(EscrowError::RecordCollision),
    }
}

/// The world a successful Initialize leaves: a fresh custody holding under
/// the custodial authority, the offered amount moved from the funding
/// account into custody, and the record written.
pub open spec fn initialize_effect(
    w: WorldView,
    c: InitializeEscrowView,
    initializer_amount: u64,
    taker_amount: u64,
) -> WorldView {
    match (
        record_address(w.program_id, c.initializer, c.token_mint),
        custody_address(w.program_id, c.initializer, c.token_mint),
    ) {
        (Some(rec_addr), Some(cus_addr)) => {
            let opened = w.ledger.insert(
                cus_addr,
                AccountView { authority: w.authority, balance: 0 },
            );
            let funded = credit(
                debit(opened, c.initializer_token_account_send, initializer_amount as int),
                cus_addr,
                initializer_amount as int,
            );
            let record = EscrowView {
                is_initialized: true,
                initializer: c.initializer,
                initializer_token_account_receive: c.initializer_token_account_receive,
                escrow_token_account: cus_addr,
                initializer_amount: initializer_amount,
                taker_amount: taker_amount,
            };
            WorldView {
                program_id: w.program_id,
                authority: w.authority,
                authority_bump: w.authority_bump,
                ledger: funded,
                records: w.records.insert(rec_addr, record),
            }
        },
        _ => w,
    }
}

/// The first rejection a Take meets, in the order the operation checks its
/// preconditions, or `None` when it succeeds.
pub open spec fn take_checks(
    w: WorldView,
    c: TakeEscrowView,
    initializer_amount: u64,
    taker_amount: u64,
) -> Option<EscrowError> {
    if !w.records.contains_key(c.escrow_state_account) {
        Some(EscrowError::RecordNotFound)
    } else {
        let r = w.records[c.escrow_state_account];
        if !r.is_initialized {
            Some(EscrowError::RecordNotFound)
        } else if r.initializer != c.initializer {
            Some(EscrowError::TermsMismatch)
        } else if r.initializer_token_account_receive != c.initializer_token_account_receive {
            Some(EscrowError::TermsMismatch)
        } else if r.escrow_token_account != c.escrow_token_account {
            Some(EscrowError::TermsMismatch)
        } else if r.initializer_amount != initializer_amount || r.taker_amount != taker_amount {
            Some(EscrowError::TermsMismatch)
        } else if !w.ledger.contains_key(c.taker_token_account_send) || w.ledger[c.taker_token_account_send].balance
            < taker_amount as int {
            Some(EscrowError::InsufficientFunds)
        } else if c.taker == w.authority || w.ledger[c.taker_token_account_send].authority
            != c.taker {
            Some(EscrowError::NotAuthorized)
        } else if w.ledger.contains_key(c.initializer_token_account_receive)
            && w.ledger[c.initializer_token_account_receive].authority == w.authority {
            Some(EscrowError::NotAuthorized)
        } else if w.ledger.contains_key(c.taker_token_account_receive)
            && w.ledger[c.taker_token_account_receive].authority == w.authority {
            Some(EscrowError::NotAuthorized)
        } else {
            None
        }
    }
}

/// The world a successful Take leaves: the taker's payment moved to the
/// initializer's receiving account, the custodied funds released to the
/// taker's receiving account, and the record deleted.
pub open spec fn take_effect(
    w: WorldView,
    c: TakeEscrowView,
    initializer_amount: u64,
    taker_amount: u64,
) -> WorldView {
    if !w.records.contains_key(c.escrow_state_account) {
        w
    } else {
        let r = w.records[c.escrow_state_account];
        let paid = credit(
            debit(w.ledger, c.taker_token_account_send, r.taker_amount as int),
            c.initializer_token_account_receive,
            r.taker_amount as int,
        );
        let released = credit(
            debit(paid, r.escrow_token_account, r.initializer_amount as int),
            c.taker_token_account_receive,
            r.initializer_amount as int,
        );
        WorldView {
            program_id: w.program_id,
            authority: w.authority,
            authority_bump: w.authority_bump,
            ledger: released,
            records: w.records.remove(c.escrow_state_account),
        }
    }
}

/// A credit of `amount` to `to` stays within the machine word that the
/// executable ledger keeps balances in.
pub open spec fn credit_fits(l: Map<Seq<u8>, AccountView>, to: Seq<u8>, amount: int) -> bool {
    balance_of(l, to) + amount <= u64::MAX as int
}

/// Whatever a successful Take credits stays within the machine word that
/// the executable ledger keeps balances in. This is the one machine limit
/// a caller must respect; every failing Take is free of it.
pub open spec fn take_fits(
    w: WorldView,
    c: TakeEscrowView,
    initializer_amount: u64,
    taker_amount: u64,
) -> bool {
    take_checks(w, c, initializer_amount, taker_amount) is None ==> {
        let r = w.records[c.escrow_state_account];
        let paid_half = debit(w.ledger, c.taker_token_account_send, r.taker_amount as int);
        let paid = credit(paid_half, c.initializer_token_account_receive, r.taker_amount as int);
        let released_half = debit(paid, r.escrow_token_account, r.initializer_amount as int);
        &&& credit_fits(paid_half, c.initializer_token_account_receive, r.taker_amount as int)
        &&& credit_fits(released_half, c.taker_token_account_receive, r.initializer_amount as int)
    }
}

/// A successful Initialize keeps the escrow invariant.
pub proof fn lemma_initialize_preserves_invariant(
    w: WorldView,
    c: InitializeEscrowView,
    initializer_amount: u64,
    taker_amount: u64,
)
    requires
        escrow_invariant(w),
        initializer_amount >= 1,
        taker_amount >= 1,
        initialize_checks(w, c, initializer_amount, taker_amount) is None,
    ensures
        escrow_invariant(initialize_effect(w, c, initializer_amount, taker_amount)),
{
    let w2 = initialize_effect(w, c, initializer_amount, taker_amount);
    let rec_addr = record_address(w.program_id, c.initializer, c.token_mint)->Some_0;
    let cus_addr = custody_address(w.program_id, c.initializer, c.token_mint)->Some_0;
    let send = c.initializer_token_account_send;
    assert forall|a: Seq<u8>| #[trigger] w2.records.contains_key(a) implies record_backed(
        w2,
        a,
    ) by {
        if a == rec_addr {
            assert(w2.ledger.contains_key(cus_addr));
            assert(w2.ledger[cus_addr].balance == initializer_amount as int);
        } else {
            assert(w.records.contains_key(a));
            assert(record_backed(w, a));
            let cus_a = w.records[a].escrow_token_account;
            assert(cus_a != cus_addr);
            assert(w.ledger[send].authority == c.initializer);
            assert(c.initializer != w.authority);
            assert(cus_a != send);
            assert(w2.ledger[cus_a] == w.ledger[cus_a]);
        }
    }
    assert forall|a: Seq<u8>, b: Seq<u8>|
        w2.records.contains_key(a) && w2.records.contains_key(b)
            && #[trigger] w2.records[a].escrow_token_account == #[trigger] w2.records[b].escrow_token_account implies a
        == b by {
        if a != rec_addr && b != rec_addr {
            assert(w.records[a].escrow_token_account == w.records[b].escrow_token_account);
        } else if a == rec_addr && b != rec_addr {
            assert(record_backed(w, b));
            assert(w.ledger.contains_key(w.records[b].escrow_token_account));
            assert(false);
        } else if a != rec_addr && b == rec_addr {
            assert(record_backed(w, a));
            assert(w.ledger.contains_key(w.records[a].escrow_token_account));
            assert(false);
        }
    }
}

/// A successful Take keeps the escrow invariant.
pub proof fn lemma_take_preserves_invariant(
    w: WorldView,
    c: TakeEscrowView,
    initializer_amount: u64,
    taker_amount: u64,
)
    requires
        escrow_invariant(w),
        take_checks(w, c, initializer_amount, taker_amount) is None,
    ensures
        escrow_invariant(take_effect(w, c, initializer_amount, taker_amount)),
{
    let w2 = take_effect(w, c, initializer_amount, taker_amount);
    let addr = c.escrow_state_account;
    let r = w.records[addr];
    assert(record_backed(w, addr));
    assert forall|a: Seq<u8>| #[trigger] w2.records.contains_key(a) implies record_backed(
        w2,
        a,
    ) by {
        assert(a != addr);
        assert(w.records.contains_key(a));
        assert(record_backed(w, a));
        let cus_a = w.records[a].escrow_token_account;
        assert(w.records[a].escrow_token_account != w.records[addr].escrow_token_account);
        assert(cus_a != r.escrow_token_account);
        assert(w.ledger[cus_a].authority == w.authority);
        assert(w.ledger[c.taker_token_account_send].authority == c.taker);
        assert(c.taker != w.authority);
        assert(cus_a != c.taker_token_account_send);
        assert(cus_a != c.initializer_token_account_receive);
        assert(cus_a != c.taker_token_account_receive);
        assert(w2.ledger[cus_a] == w.ledger[cus_a]);
    }
    assert forall|a: Seq<u8>, b: Seq<u8>|
        w2.records.contains_key(a) && w2.records.contains_key(b)
            && #[trigger] w2.records[a].escrow_token_account == #[trigger] w2.records[b].escrow_token_account implies a
        == b by {
        assert(w.records[a].escrow_token_account == w.records[b].escrow_token_account);
    }
}

} // verus!
