//! The custodial authority and the derived addresses of the escrow.
//!
//! The authority is a keyless identity: an address derived by hashing a
//! fixed domain-separation seed together with the program's identity, with
//! a bump scalar searched until the result falls outside the space of
//! addresses that an external key could control. The record and custody
//! addresses of each escrow are derived the same way from the initializer's
//! identity and the asset's identity, so two different escrows never share
//! a record or a custody address.

use vstd::prelude::*;

use crate::bytes::copy_bytes;

verus! {

/// What `try_find_program_address` derives from a seed tuple and a program
/// identity: a usable address and its bump scalar, or `None` when no bump
/// scalar yields one. The result is a function of the two arguments alone.
pub uninterp spec fn derived_program_address(seeds: Seq<Seq<u8>>, program_id: Seq<u8>) -> Option<
    (Seq<u8>, u8),
>;

/// Relies on anchor_lang's `Pubkey::try_find_program_address`: a pure
/// search over bump scalars that hashes the seed tuple with the program
/// identity and returns the first derived address that no external key can
/// control, or `None` when the seeds are too many or too long or no bump
/// scalar works. Its outcome depends on the seeds and the program identity
/// alone.
#[verifier::external_body]
fn try_find_program_address(seeds: &Vec<Vec<u8>>, program_id: &Vec<u8>) -> (r: Option<
    (Vec<u8>, u8),
>)
    requires
        program_id@.len() == 32,
    ensures
        (match r {
            Some(p) => derived_program_address(seeds.deep_view(), program_id@) == Some((p.0@, p.1)),
            None => derived_program_address(seeds.deep_view(), program_id@) is None,
        }),
{
    let mut array = [0u8; 32];
    array.copy_from_slice(program_id.as_slice());
    let pid = anchor_lang::prelude::Pubkey::new_from_array(array);
    let seed_slices: Vec<&[u8]> = seeds.iter().map(|s| s.as_slice()).collect();
    anchor_lang::prelude::Pubkey::try_find_program_address(&seed_slices, &pid)
        .map(|(pk, bump)| (pk.to_bytes().to_vec(), bump))
}

/// The domain-separation seed of the custodial authority: the bytes of
/// "escrow".
pub open spec fn authority_tag() -> Seq<u8> {
    seq![101u8, 115u8, 99u8, 114u8, 111u8, 119u8]
}

/// The domain-separation seed of escrow records: the bytes of
/// "escrow-state".
pub open spec fn record_tag() -> Seq<u8> {
    seq![101u8, 115u8, 99u8, 114u8, 111u8, 119u8, 45u8, 115u8, 116u8, 97u8, 116u8, 101u8]
}

/// The domain-separation seed of custody holdings: the bytes of
/// "escrow-token".
pub open spec fn custody_tag() -> Seq<u8> {
    seq![101u8, 115u8, 99u8, 114u8, 111u8, 119u8, 45u8, 116u8, 111u8, 107u8, 101u8, 110u8]
}

fn authority_tag_bytes() -> (r: Vec<u8>)
    ensures
        r@ == authority_tag(),
{
    let mut v: Vec<u8> = Vec::new();
    v.push(101);
    v.push(115);
    v.push(99);
    v.push(114);
    v.push(111);
    v.push(119);
    proof {
        assert(v@ =~= authority_tag());
    }
    v
}

fn record_tag_bytes() -> (r: Vec<u8>)
    ensures
        r@ == record_tag(),
{
    let mut v = authority_tag_bytes();
    v.push(45);
    v.push(115);
    v.push(116);
    v.push(97);
    v.push(116);
    v.push(101);
    proof {
        assert(v@ =~= record_tag());
    }
    v
}

fn custody_tag_bytes() -> (r: Vec<u8>)
    ensures
        r@ == custody_tag(),
{
    let mut v = authority_tag_bytes();
    v.push(45);
    v.push(116);
    v.push(111);
    v.push(107);
    v.push(101);
    v.push(110);
    proof {
        assert(v@ =~= custody_tag());
    }
    v
}

/// The seed tuple of the custodial authority: the domain seed alone, so the
/// authority is shared across all escrows of one program.
pub open spec fn authority_seeds() -> Seq<Seq<u8>> {
    seq![authority_tag()]
}

/// The seed tuple of an escrow record: the record domain seed, the
/// initializer's identity and the asset's identity.
pub open spec fn record_seeds(initializer: Seq<u8>, mint: Seq<u8>) -> Seq<Seq<u8>> {
    seq![record_tag(), initializer, mint]
}

/// The seed tuple of a custody holding: the custody domain seed, the
/// initializer's identity and the asset's identity.
pub open spec fn custody_seeds(initializer: Seq<u8>, mint: Seq<u8>) -> Seq<Seq<u8>> {
    seq![custody_tag(), initializer, mint]
}

/// The derived identity of the custodial authority, with its bump scalar.
pub open spec fn authority_address(program_id: Seq<u8>) -> Option<(Seq<u8>, u8)> {
    derived_program_address(authority_seeds(), program_id)
}

/// The derived address of the escrow record of one (initializer, asset)
/// pair.
pub open spec fn record_address(program_id: Seq<u8>, initializer: Seq<u8>, mint: Seq<u8>) -> Option<
    Seq<u8>,
> {
    match derived_program_address(record_seeds(initializer, mint), program_id) {
        Some(p) => Some(p.0),
        None => None,
    }
}

/// The derived address of the custody holding of one (initializer, asset)
/// pair.
pub open spec fn custody_address(
    program_id: Seq<u8>,
    initializer: Seq<u8>,
    mint: Seq<u8>,
) -> Option<Seq<u8>> {
    match derived_program_address(custody_seeds(initializer, mint), program_id) {
        Some(p) => Some(p.0),
        None => None,
    }
}

/// Derives the custodial authority of a program.
pub fn derive_authority(program_id: &Vec<u8>) -> (r: Option<(Vec<u8>, u8)>)
    requires
        program_id@.len() == 32,
    ensures
        (match r {
            Some(p) => authority_address(program_id@) == Some((p.0@, p.1)),
            None => authority_address(program_id@) is None,
        }),
{
    let mut seeds: Vec<Vec<u8>> = Vec::new();
    seeds.push(authority_tag_bytes());
    proof {
        assert(seeds.deep_view() =~~= authority_seeds());
    }
    try_find_program_address(&seeds, program_id)
}

/// Derives the record address of one (initializer, asset) pair.
pub fn derive_record_address(program_id: &Vec<u8>, initializer: &Vec<u8>, mint: &Vec<u8>) -> (r:
    Option<Vec<u8>>)
    requires
        program_id@.len() == 32,
    ensures
        (match r {
            Some(addr) => record_address(program_id@, initializer@, mint@) == Some(addr@),
            None => record_address(program_id@, initializer@, mint@) is None,
        }),
{
    let mut seeds: Vec<Vec<u8>> = Vec::new();
    seeds.push(record_tag_bytes());
    seeds.push(copy_bytes(initializer));
    seeds.push(copy_bytes(mint));
    proof {
        assert(seeds.deep_view() =~~= record_seeds(initializer@, mint@));
    }
    match try_find_program_address(&seeds, program_id) {
        Some(p) => Some(p.0),
        None => None,
    }
}

/// Derives the custody address of one (initializer, asset) pair.
pub fn derive_custody_address(program_id: &Vec<u8>, initializer: &Vec<u8>, mint: &Vec<u8>) -> (r:
    Option<Vec<u8>>)
    requires
        program_id@.len() == 32,
    ensures
        (match r {
            Some(addr) => custody_address(program_id@, initializer@, mint@) == Some(addr@),
            None => custody_address(program_id@, initializer@, mint@) is None,
        }),
{
    let mut seeds: Vec<Vec<u8>> = Vec::new();
    seeds.push(custody_tag_bytes());
    seeds.push(copy_bytes(initializer));
    seeds.push(copy_bytes(mint));
    proof {
        assert(seeds.deep_view() =~~= custody_seeds(initializer@, mint@));
    }
    match try_find_program_address(&seeds, program_id) {
        Some(p) => Some(p.0),
        None => None,
    }
}

} // verus!
