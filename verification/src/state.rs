//! The escrow world and its two atomic operations.
//!
//! Every precondition of an operation is checked before any mutation; on a
//! rejection the world is unchanged and the specific kind is reported.
//! A successful operation applies its whole effect: there is no partial
//! state.

use vstd::pervasive::unreached;
use vstd::prelude::*;

use crate::account::{Account, Escrow};
use crate::authority::{authority_address, derive_authority, derive_custody_address,
    derive_record_address};
use crate::bytes::{bytes_eq, copy_bytes};
use crate::error::EscrowError;
use crate::model::{credit, credit_fits, debit, escrow_invariant, initialize_checks,
    initialize_effect, record_backed, take_checks, take_effect, take_fits, AccountView,
    EscrowView, InitializeEscrowView, TakeEscrowView, WorldView};
use crate::table::Table;

verus! {

/// The accounts an Initialize works on. The initializer is the
/// transaction's authenticated signer; the outer dispatcher vouches for
/// that before it calls in.
pub struct InitializeEscrow {
    pub initializer: Vec<u8>,
    pub initializer_token_account_send: Vec<u8>,
    pub initializer_token_account_receive: Vec<u8>,
    pub token_mint: Vec<u8>,
}

impl View for InitializeEscrow {
    type V = InitializeEscrowView;

    open spec fn view(&self) -> InitializeEscrowView {
        InitializeEscrowView {
            initializer: self.initializer@,
            initializer_token_account_send: self.initializer_token_account_send@,
            initializer_token_account_receive: self.initializer_token_account_receive@,
            token_mint: self.token_mint@,
        }
    }
}

/// The accounts a Take works on. The taker is the transaction's
/// authenticated signer; the other fields are the terms the taker believes
/// apply, validated against the stored record.
pub struct TakeEscrow {
    pub taker: Vec<u8>,
    pub taker_token_account_send: Vec<u8>,
    pub taker_token_account_receive: Vec<u8>,
    pub initializer: Vec<u8>,
    pub initializer_token_account_receive: Vec<u8>,
    pub escrow_state_account: Vec<u8>,
    pub escrow_token_account: Vec<u8>,
}

impl View for TakeEscrow {
    type V = TakeEscrowView;

    open spec fn view(&self) -> TakeEscrowView {
        TakeEscrowView {
            taker: self.taker@,
            taker_token_account_send: self.taker_token_account_send@,
            taker_token_account_receive: self.taker_token_account_receive@,
            initializer: self.initializer@,
            initializer_token_account_receive: self.initializer_token_account_receive@,
            escrow_state_account: self.escrow_state_account@,
            escrow_token_account: self.escrow_token_account@,
        }
    }
}

/// The record store and the asset ledger of one program, with the
/// custodial authority derived from the program's identity.
pub struct World {
    program_id: Vec<u8>,
    authority: Vec<u8>,
    authority_bump: u8,
    ledger: Table<Account>,
    records: Table<Escrow>,
}

impl View for World {
    type V = WorldView;

    closed spec fn view(&self) -> WorldView {
        WorldView {
            program_id: self.program_id@,
            authority: self.authority@,
            authority_bump: self.authority_bump,
            ledger: self.ledger@,
            records: self.records@,
        }
    }
}

impl World {
    /// Both stores key their entries soundly and the world satisfies the
    /// escrow invariant.
    pub closed spec fn inv(&self) -> bool {
        &&& self.ledger.inv()
        &&& self.records.inv()
        &&& escrow_invariant(self@)
    }

    /// An empty world for the program with the given identity, or `None`
    /// when no custodial authority can be derived for that identity.
    pub fn new(program_id: Vec<u8>) -> (r: Option<World>)
        requires
            program_id@.len() == 32,
        ensures
            (match r {
                Some(w) => {
                    &&& w.inv()
                    &&& escrow_invariant(w@)
                    &&& w@.program_id == program_id@
                    &&& authority_address(program_id@) == Some((w@.authority, w@.authority_bump))
                    &&& w@.ledger == Map::<Seq<u8>, AccountView>::empty()
                    &&& w@.records == Map::<Seq<u8>, EscrowView>::empty()
                },
                None => authority_address(program_id@) is None,
            }),
    {
        match derive_authority(&program_id) {
            Some(p) => {
                let (authority, authority_bump) = p;
                Some(
                    World {
                        program_id,
                        authority,
                        authority_bump,
                        ledger: Table::new(),
                        records: Table::new(),
                    },
                )
            },
            None => None,
        }
    }

    /// The identity of the custodial authority.
    pub fn authority_identity(&self) -> (r: &Vec<u8>)
        ensures
            r@ == self@.authority,
    {
        &self.authority
    }

    /// The bump scalar found when the custodial authority was derived.
    pub fn authority_bump(&self) -> (r: u8)
        ensures
            r == self@.authority_bump,
    {
        self.authority_bump
    }

    /// Opens a ledger holding at a fresh address, as the surrounding
    /// system does before escrow operations run. Returns false and changes
    /// nothing when the address is already taken.
    pub fn open_account(&mut self, address: Vec<u8>, authority: Vec<u8>, balance: u64) -> (r: bool)
        requires
            old(self).inv(),
        ensures
            final(self).inv(),
            escrow_invariant(final(self)@),
            r == !old(self)@.ledger.contains_key(address@),
            r ==> final(self)@ == (WorldView {
                ledger: old(self)@.ledger.insert(
                    address@,
                    AccountView { authority: authority@, balance: balance as int },
                ),
                ..old(self)@
            }),
            !r ==> final(self)@ == old(self)@,
    {
        if self.ledger.contains(&address) {
            return false;
        }
        self.ledger.insert(address, Account { authority, balance });
        proof {
            assert forall|a: Seq<u8>| #[trigger]
                self@.records.contains_key(a) implies record_backed(self@, a) by {
                assert(record_backed(old(self)@, a));
            }
            assert(self@ =~= (WorldView {
                ledger: old(self)@.ledger.insert(
                    address@,
                    AccountView { authority: authority@, balance: balance as int },
                ),
                ..old(self)@
            }));
        }
        true
    }

    /// The balance of the holding at an address, if the ledger has one.
    pub fn balance_of(&self, address: &Vec<u8>) -> (r: Option<u64>)
        requires
            self.inv(),
        ensures
            (match r {
                Some(b) => self@.ledger.contains_key(address@) && b as int
                    == self@.ledger[address@].balance,
                None => !self@.ledger.contains_key(address@),
            }),
    {
        match self.ledger.get(address) {
            Some(acct) => Some(acct.balance),
            None => None,
        }
    }

    /// The identity that may authorize debits from the holding at an
    /// address, if the ledger has one.
    pub fn account_authority(&self, address: &Vec<u8>) -> (r: Option<&Vec<u8>>)
        requires
            self.inv(),
        ensures
            (match r {
                Some(a) => self@.ledger.contains_key(address@) && a@
                    == self@.ledger[address@].authority,
                None => !self@.ledger.contains_key(address@),
            }),
    {
        match self.ledger.get(address) {
            Some(acct) => Some(&acct.authority),
            None => None,
        }
    }

    /// The escrow record at an address, if one is open there.
    pub fn record_at(&self, address: &Vec<u8>) -> (r: Option<&Escrow>)
        requires
            self.inv(),
        ensures
            (match r {
                Some(e) => self@.records.contains_key(address@) && e@
                    == self@.records[address@],
                None => !self@.records.contains_key(address@),
            }),
    {
        self.records.get(address)
    }
}

fn ledger_debit(ledger: &mut Table<Account>, from: &Vec<u8>, amount: u64)
    requires
        old(ledger).inv(),
        old(ledger)@.contains_key(from@),
        old(ledger)@[from@].balance >= amount as int,
    ensures
        final(ledger).inv(),
        final(ledger)@ == debit(old(ledger)@, from@, amount as int),
{
    let (authority, balance) = match ledger.get(from) {
        Some(acct) => (copy_bytes(&acct.authority), acct.balance),
        None => unreached(),
    };
    ledger.set(from, Account { authority, balance: balance - amount });
    proof {
        assert(ledger@ =~= debit(old(ledger)@, from@, amount as int));
    }
}

fn ledger_credit(ledger: &mut Table<Account>, to: &Vec<u8>, amount: u64)
    requires
        old(ledger).inv(),
        credit_fits(old(ledger)@, to@, amount as int),
    ensures
        final(ledger).inv(),
        final(ledger)@ == credit(old(ledger)@, to@, amount as int),
{
    let found = match ledger.get(to) {
        Some(acct) => Some((copy_bytes(&acct.authority), acct.balance)),
        None => None,
    };
    match found {
        Some(p) => {
            let (authority, balance) = p;
            ledger.set(to, Account { authority, balance: balance + amount });
        },
        None => {
            ledger.insert(copy_bytes(to), Account { authority: copy_bytes(to), balance: amount });
        },
    }
    proof {
        assert(ledger@ =~= credit(old(ledger)@, to@, amount as int));
    }
}

/// Creates an escrow offer: derives the record and custody addresses of
/// the (initializer, asset) pair, checks the preconditions, then locks
/// `initializer_amount` from the funding account in the fresh custody
/// holding under the custodial authority and writes the record — or
/// rejects with the specific kind and changes nothing.
pub fn initialize_escrow(
    world: &mut World,
    ctx: &InitializeEscrow,
    initializer_amount: u64,
    taker_amount: u64,
) -> (r: Result<(), EscrowError>)
    requires
        old(world).inv(),
        initializer_amount >= 1,
        taker_amount >= 1,
    ensures
        final(world).inv(),
        escrow_invariant(final(world)@),
        (match initialize_checks(old(world)@, ctx@, initializer_amount, taker_amount) {
            None => r == Ok::<(), EscrowError>(()) && final(world)@ == initialize_effect(
                old(world)@,
                ctx@,
                initializer_amount,
                taker_amount,
            ),
            Some(e) => r == Err::<(), EscrowError>(e) && final(world)@ == old(world)@,
        }),
{
    let rec_opt = derive_record_address(&world.program_id, &ctx.initializer, &ctx.token_mint);
    let cus_opt = derive_custody_address(&world.program_id, &ctx.initializer, &ctx.token_mint);
    let (rec_addr, cus_addr) = match (rec_opt, cus_opt) {
        (Some(ra), Some(ca)) => (ra, ca),
        _ => {
            return Err(EscrowError::RecordCollision);
        },
    };
    if world.records.contains(&rec_addr) {
        return Err(EscrowError::RecordCollision);
    }
    if world.ledger.contains(&cus_addr) {
        return Err(EscrowError::RecordCollision);
    }
    let (funding_authority, funding_balance) = match world.ledger.get(
        &ctx.initializer_token_account_send,
    ) {
        Some(acct) => (copy_bytes(&acct.authority), acct.balance),
        None => {
            return Err(EscrowError::InsufficientFunds);
        },
    };
    if funding_balance < initializer_amount {
        return Err(EscrowError::InsufficientFunds);
    }
    if bytes_eq(&ctx.initializer, &world.authority) {
        return Err(EscrowError::NotAuthorized);
    }
    if !bytes_eq(&funding_authority, &ctx.initializer) {
        return Err(EscrowError::NotAuthorized);
    }
    let custody = Account { authority: copy_bytes(&world.authority), balance: 0 };
    world.ledger.insert(copy_bytes(&cus_addr), custody);
    ledger_debit(&mut world.ledger, &ctx.initializer_token_account_send, initializer_amount);
    ledger_credit(&mut world.ledger, &cus_addr, initializer_amount);
    let record = Escrow {
        is_initialized: true,
        initializer: copy_bytes(&ctx.initializer),
        initializer_token_account_receive: copy_bytes(&ctx.initializer_token_account_receive),
        escrow_token_account: copy_bytes(&cus_addr),
        initializer_amount,
        taker_amount,
    };
    world.records.insert(rec_addr, record);
    proof {
        crate::model::lemma_initialize_preserves_invariant(
            old(world)@,
            ctx@,
            initializer_amount,
            taker_amount,
        );
        assert(world@ =~= initialize_effect(old(world)@, ctx@, initializer_amount, taker_amount));
    }
    Ok(())
}

/// Settles an escrow offer: validates the supplied terms against the
/// stored record, then moves the taker's payment to the initializer's
/// receiving account, releases the custodied funds to the taker's
/// receiving account under the custodial authority, and deletes the
/// record — or rejects with the specific kind and changes nothing.
pub fn take_escrow(
    world: &mut World,
    ctx: &TakeEscrow,
    initializer_amount: u64,
    taker_amount: u64,
) -> (r: Result<(), EscrowError>)
    requires
        old(world).inv(),
        take_fits(old(world)@, ctx@, initializer_amount, taker_amount),
    ensures
        final(world).inv(),
        escrow_invariant(final(world)@),
        (match take_checks(old(world)@, ctx@, initializer_amount, taker_amount) {
            None => r == Ok::<(), EscrowError>(()) && final(world)@ == take_effect(
                old(world)@,
                ctx@,
                initializer_amount,
                taker_amount,
            ),
            Some(e) => r == Err::<(), EscrowError>(e) && final(world)@ == old(world)@,
        }),
{
    let (rec_initializer, rec_receive, rec_custody, rec_flag, rec_ia, rec_ta) = match world
        .records
        .get(&ctx.escrow_state_account) {
        Some(e) => (
            copy_bytes(&e.initializer),
            copy_bytes(&e.initializer_token_account_receive),
            copy_bytes(&e.escrow_token_account),
            e.is_initialized,
            e.initializer_amount,
            e.taker_amount,
        ),
        None => {
            return Err(EscrowError::RecordNotFound);
        },
    };
    if !rec_flag {
        return Err(EscrowError::RecordNotFound);
    }
    if !bytes_eq(&rec_initializer, &ctx.initializer) {
        return Err(EscrowError::TermsMismatch);
    }
    if !bytes_eq(&rec_receive, &ctx.initializer_token_account_receive) {
        return Err(EscrowError::TermsMismatch);
    }
    if !bytes_eq(&rec_custody, &ctx.escrow_token_account) {
        return Err(EscrowError::TermsMismatch);
    }
    if rec_ia != initializer_amount || rec_ta != taker_amount {
        return Err(EscrowError::TermsMismatch);
    }
    let (send_authority, send_balance) = match world.ledger.get(&ctx.taker_token_account_send) {
        Some(acct) => (copy_bytes(&acct.authority), acct.balance),
        None => {
            return Err(EscrowError::InsufficientFunds);
        },
    };
    if send_balance < taker_amount {
        return Err(EscrowError::InsufficientFunds);
    }
    if bytes_eq(&ctx.taker, &world.authority) {
        return Err(EscrowError::NotAuthorized);
    }
    if !bytes_eq(&send_authority, &ctx.taker) {
        return Err(EscrowError::NotAuthorized);
    }
    match world.ledger.get(&ctx.initializer_token_account_receive) {
        Some(acct) => {
            if bytes_eq(&acct.authority, &world.authority) {
                return Err(EscrowError::NotAuthorized);
            }
        },
        None => {},
    }
    match world.ledger.get(&ctx.taker_token_account_receive) {
        Some(acct) => {
            if bytes_eq(&acct.authority, &world.authority) {
                return Err(EscrowError::NotAuthorized);
            }
        },
        None => {},
    }
    proof {
        assert(take_checks(old(world)@, ctx@, initializer_amount, taker_amount) is None);
        assert(record_backed(old(world)@, ctx@.escrow_state_account));
    }
    ledger_debit(&mut world.ledger, &ctx.taker_token_account_send, taker_amount);
    ledger_credit(&mut world.ledger, &ctx.initializer_token_account_receive, taker_amount);
    proof {
        assert(world@.ledger.contains_key(rec_custody@));
        assert(world@.ledger[rec_custody@].balance == initializer_amount as int);
    }
    ledger_debit(&mut world.ledger, &rec_custody, initializer_amount);
    ledger_credit(&mut world.ledger, &ctx.taker_token_account_receive, initializer_amount);
    world.records.remove(&ctx.escrow_state_account);
    proof {
        crate::model::lemma_take_preserves_invariant(
            old(world)@,
            ctx@,
            initializer_amount,
            taker_amount,
        );
        assert(world@ =~= take_effect(old(world)@, ctx@, initializer_amount, taker_amount));
    }
    Ok(())
}

} // verus!
