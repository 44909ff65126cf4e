//! End-to-end behaviour of the escrow operations, run against the real
//! address derivation.

use escrow_anchor::authority::{derive_authority, derive_custody_address, derive_record_address};
use escrow_anchor::{initialize_escrow, take_escrow, EscrowError, InitializeEscrow, TakeEscrow,
    World};

fn id(tag: u8) -> Vec<u8> {
    vec![tag; 32]
}

struct Party {
    identity: Vec<u8>,
    send: Vec<u8>,
    receive: Vec<u8>,
}

fn initializer_party() -> Party {
    Party { identity: id(1), send: id(2), receive: id(3) }
}

fn taker_party() -> Party {
    Party { identity: id(4), send: id(5), receive: id(6) }
}

fn program_id() -> Vec<u8> {
    id(7)
}

fn mint() -> Vec<u8> {
    id(9)
}

/// A world with the two parties' accounts funded: the initializer's
/// funding account holds 500, the taker's paying account 300.
fn funded_world() -> World {
    let mut world = World::new(program_id()).expect("authority derivation");
    let a = initializer_party();
    let t = taker_party();
    assert!(world.open_account(a.send.clone(), a.identity.clone(), 500));
    assert!(world.open_account(a.receive.clone(), a.identity.clone(), 0));
    assert!(world.open_account(t.send.clone(), t.identity.clone(), 300));
    assert!(world.open_account(t.receive.clone(), t.identity.clone(), 0));
    world
}

fn init_ctx() -> InitializeEscrow {
    let a = initializer_party();
    InitializeEscrow {
        initializer: a.identity,
        initializer_token_account_send: a.send,
        initializer_token_account_receive: a.receive,
        token_mint: mint(),
    }
}

fn take_ctx(record_addr: Vec<u8>, custody_addr: Vec<u8>) -> TakeEscrow {
    let a = initializer_party();
    let t = taker_party();
    TakeEscrow {
        taker: t.identity,
        taker_token_account_send: t.send,
        taker_token_account_receive: t.receive,
        initializer: a.identity,
        initializer_token_account_receive: a.receive,
        escrow_state_account: record_addr,
        escrow_token_account: custody_addr,
    }
}

fn derived_record_addr() -> Vec<u8> {
    let a = initializer_party();
    derive_record_address(&program_id(), &a.identity, &mint()).expect("record derivation")
}

fn derived_custody_addr() -> Vec<u8> {
    let a = initializer_party();
    derive_custody_address(&program_id(), &a.identity, &mint()).expect("custody derivation")
}

#[test]
fn end_to_end_scenario() {
    // The initializer locks 100 wanting 40; the taker settles with
    // matching terms.
    let mut world = funded_world();
    let a = initializer_party();
    let t = taker_party();

    let r = initialize_escrow(&mut world, &init_ctx(), 100, 40);
    assert_eq!(r, Ok(()));

    let record_addr = derived_record_addr();
    let custody_addr = derived_custody_addr();

    // Custody holds exactly the locked amount, under the custodial
    // authority; the funding account was debited by the same amount.
    assert_eq!(world.balance_of(&custody_addr), Some(100));
    assert_eq!(world.balance_of(&a.send), Some(400));
    assert_eq!(
        world.account_authority(&custody_addr).map(|v| v.clone()),
        Some(world.authority_identity().clone())
    );

    // Exactly one record, all fields matching the inputs.
    let record = world.record_at(&record_addr).expect("record open");
    assert!(record.is_initialized);
    assert_eq!(record.initializer, a.identity);
    assert_eq!(record.initializer_token_account_receive, a.receive);
    assert_eq!(record.escrow_token_account, custody_addr);
    assert_eq!(record.initializer_amount, 100);
    assert_eq!(record.taker_amount, 40);

    let r = take_escrow(&mut world, &take_ctx(record_addr.clone(), custody_addr.clone()), 100, 40);
    assert_eq!(r, Ok(()));

    // Both parties received their amounts, custody is empty, the record
    // is gone.
    assert_eq!(world.balance_of(&a.receive), Some(40));
    assert_eq!(world.balance_of(&t.receive), Some(100));
    assert_eq!(world.balance_of(&t.send), Some(260));
    assert_eq!(world.balance_of(&custody_addr), Some(0));
    assert!(world.record_at(&record_addr).is_none());
}

#[test]
fn replay_take_fails_with_record_not_found() {
    let mut world = funded_world();
    assert_eq!(initialize_escrow(&mut world, &init_ctx(), 100, 40), Ok(()));
    let record_addr = derived_record_addr();
    let custody_addr = derived_custody_addr();
    let ctx = take_ctx(record_addr, custody_addr);
    assert_eq!(take_escrow(&mut world, &ctx, 100, 40), Ok(()));

    let t = taker_party();
    let a = initializer_party();
    let receive_before = world.balance_of(&a.receive);
    let send_before = world.balance_of(&t.send);
    assert_eq!(take_escrow(&mut world, &ctx, 100, 40), Err(EscrowError::RecordNotFound));
    // No transfer was re-executed.
    assert_eq!(world.balance_of(&a.receive), receive_before);
    assert_eq!(world.balance_of(&t.send), send_before);
}

#[test]
fn second_initialize_fails_with_record_collision() {
    let mut world = funded_world();
    assert_eq!(initialize_escrow(&mut world, &init_ctx(), 100, 40), Ok(()));
    let a = initializer_party();
    let funding_before = world.balance_of(&a.send);
    // Same (initializer, asset) pair, different terms: still a collision,
    // and the second call changes nothing.
    assert_eq!(
        initialize_escrow(&mut world, &init_ctx(), 50, 20),
        Err(EscrowError::RecordCollision)
    );
    assert_eq!(world.balance_of(&a.send), funding_before);
    assert_eq!(world.balance_of(&derived_custody_addr()), Some(100));
}

#[test]
fn take_with_wrong_amount_fails_with_terms_mismatch() {
    let mut world = funded_world();
    assert_eq!(initialize_escrow(&mut world, &init_ctx(), 100, 40), Ok(()));
    let record_addr = derived_record_addr();
    let custody_addr = derived_custody_addr();

    let t = taker_party();
    let a = initializer_party();
    let ctx = take_ctx(record_addr.clone(), custody_addr);
    assert_eq!(take_escrow(&mut world, &ctx, 100, 39), Err(EscrowError::TermsMismatch));
    // No transfers occurred and the record stays open for a correct Take.
    assert_eq!(world.balance_of(&t.send), Some(300));
    assert_eq!(world.balance_of(&a.receive), Some(0));
    assert!(world.record_at(&record_addr).is_some());
    assert_eq!(take_escrow(&mut world, &ctx, 100, 40), Ok(()));
}

#[test]
fn take_with_wrong_initializer_fails_with_terms_mismatch() {
    let mut world = funded_world();
    assert_eq!(initialize_escrow(&mut world, &init_ctx(), 100, 40), Ok(()));
    let mut ctx = take_ctx(derived_record_addr(), derived_custody_addr());
    ctx.initializer = id(8);
    assert_eq!(take_escrow(&mut world, &ctx, 100, 40), Err(EscrowError::TermsMismatch));
}

#[test]
fn take_against_empty_world_fails_with_record_not_found() {
    let mut world = funded_world();
    let ctx = take_ctx(id(10), id(11));
    assert_eq!(take_escrow(&mut world, &ctx, 100, 40), Err(EscrowError::RecordNotFound));
}

#[test]
fn initialize_with_low_funding_fails_with_insufficient_funds() {
    // Funding balance 50, offered amount 100: rejected, nothing created.
    let mut world = World::new(program_id()).expect("authority derivation");
    let a = initializer_party();
    assert!(world.open_account(a.send.clone(), a.identity.clone(), 50));
    assert_eq!(
        initialize_escrow(&mut world, &init_ctx(), 100, 40),
        Err(EscrowError::InsufficientFunds)
    );
    assert_eq!(world.balance_of(&a.send), Some(50));
    assert!(world.record_at(&derived_record_addr()).is_none());
    assert!(world.balance_of(&derived_custody_addr()).is_none());
}

#[test]
fn initialize_with_missing_funding_fails_with_insufficient_funds() {
    let mut world = World::new(program_id()).expect("authority derivation");
    assert_eq!(
        initialize_escrow(&mut world, &init_ctx(), 100, 40),
        Err(EscrowError::InsufficientFunds)
    );
}

#[test]
fn initialize_with_foreign_funding_fails_with_not_authorized() {
    // The funding account is not under the initializer's authority.
    let mut world = World::new(program_id()).expect("authority derivation");
    let a = initializer_party();
    assert!(world.open_account(a.send.clone(), id(12), 500));
    assert_eq!(
        initialize_escrow(&mut world, &init_ctx(), 100, 40),
        Err(EscrowError::NotAuthorized)
    );
}

#[test]
fn take_with_foreign_paying_account_fails_with_not_authorized() {
    let mut world = funded_world();
    assert_eq!(initialize_escrow(&mut world, &init_ctx(), 100, 40), Ok(()));
    let mut ctx = take_ctx(derived_record_addr(), derived_custody_addr());
    // A paying account under someone else's authority.
    ctx.taker_token_account_send = id(13);
    assert!(world.open_account(id(13), id(14), 300));
    assert_eq!(take_escrow(&mut world, &ctx, 100, 40), Err(EscrowError::NotAuthorized));
}

#[test]
fn take_with_low_paying_balance_fails_with_insufficient_funds() {
    let mut world = funded_world();
    assert_eq!(initialize_escrow(&mut world, &init_ctx(), 100, 40), Ok(()));
    let mut ctx = take_ctx(derived_record_addr(), derived_custody_addr());
    ctx.taker_token_account_send = id(15);
    assert!(world.open_account(id(15), taker_party().identity, 39));
    assert_eq!(take_escrow(&mut world, &ctx, 100, 40), Err(EscrowError::InsufficientFunds));
}

#[test]
fn take_paying_into_custody_fails_with_not_authorized() {
    // The custodial authority's holdings accept credits only from the
    // escrow logic itself.
    let mut world = funded_world();
    assert_eq!(initialize_escrow(&mut world, &init_ctx(), 100, 40), Ok(()));
    let custody_addr = derived_custody_addr();
    let mut ctx = take_ctx(derived_record_addr(), custody_addr.clone());
    ctx.taker_token_account_receive = custody_addr;
    assert_eq!(take_escrow(&mut world, &ctx, 100, 40), Err(EscrowError::NotAuthorized));
}

#[test]
fn open_account_rejects_an_occupied_address() {
    let mut world = World::new(program_id()).expect("authority derivation");
    assert!(world.open_account(id(1), id(1), 10));
    assert!(!world.open_account(id(1), id(2), 20));
    assert_eq!(world.balance_of(&id(1)), Some(10));
}

#[test]
fn derived_addresses_are_deterministic_and_fresh() {
    let a = initializer_party();
    let rec1 = derive_record_address(&program_id(), &a.identity, &mint()).expect("derivation");
    let rec2 = derive_record_address(&program_id(), &a.identity, &mint()).expect("derivation");
    assert_eq!(rec1, rec2);
    // The derivation hashes its inputs: the result is none of them.
    assert_eq!(rec1.len(), 32);
    assert_ne!(rec1, program_id());
    assert_ne!(rec1, a.identity);
    assert_ne!(rec1, mint());
    // Different asset, different address; and the custody address differs
    // from the record address of the same pair.
    let other = derive_record_address(&program_id(), &a.identity, &id(10)).expect("derivation");
    assert_ne!(rec1, other);
    let custody = derive_custody_address(&program_id(), &a.identity, &mint()).expect("derivation");
    assert_ne!(rec1, custody);
}

#[test]
fn authority_matches_its_derivation() {
    let world = World::new(program_id()).expect("authority derivation");
    let (authority, bump) = derive_authority(&program_id()).expect("derivation");
    assert_eq!(world.authority_identity(), &authority);
    assert_eq!(world.authority_bump(), bump);
    assert_ne!(&authority, &program_id());
}
