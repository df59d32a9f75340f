use vstd::prelude::*;

use crate::key::{key_eq, Key};

verus! {

/// What `Pubkey::create_program_address` returns for a full seed tuple
/// (bump seed included): the derived address, or nothing when the seeds
/// are invalid. The result depends on the arguments alone.
pub uninterp spec fn pda_of(seeds: Seq<Seq<u8>>, program_id: Seq<u8>) -> Option<Seq<u8>>;

/// What `Pubkey::try_find_program_address` returns for a seed tuple: the
/// derived address and its bump seed, or nothing when no bump works. The
/// result depends on the arguments alone.
pub uninterp spec fn found_pda(seeds: Seq<Seq<u8>>, program_id: Seq<u8>) -> Option<(Seq<u8>, u8)>;

/// Relies on Pubkey::try_find_program_address: deterministically derives
/// an address and bump seed from the seed tuple, trying bump seeds from
/// 255 down to 1, so the bump returned is the largest that works, and
/// appending it to the seeds reproduces the address through
/// Pubkey::create_program_address. Bump seed 0 is never tried, so a
/// failed search says nothing about it.
#[verifier::external_body]
fn find_pda(seeds: &Vec<Vec<u8>>, program_id: &Key) -> (r: Option<(Key, u8)>)
    ensures
        match r {
            Some(p) => {
                &&& found_pda(seeds.deep_view(), program_id@) == Some((p.0@, p.1))
                &&& pda_of(seeds.deep_view().push(seq![p.1]), program_id@) == Some(p.0@)
                &&& forall|b: u8|
                    b > p.1 ==> pda_of(seeds.deep_view().push(seq![b]), program_id@) is None
            },
            None => {
                &&& found_pda(seeds.deep_view(), program_id@) is None
                &&& forall|b: u8|
                    b >= 1 ==> pda_of(seeds.deep_view().push(seq![b]), program_id@) is None
            },
        },
{
    let refs: Vec<&[u8]> = seeds.iter().map(|s| s.as_slice()).collect();
    let pid = anchor_lang::prelude::Pubkey::new_from_array(program_id.bytes);
    anchor_lang::prelude::Pubkey::try_find_program_address(&refs, &pid).map(
        |p: (anchor_lang::prelude::Pubkey, u8)| (Key { bytes: p.0.to_bytes() }, p.1),
    )
}

/// Relies on Pubkey::create_program_address: deterministically derives an
/// address from a full seed tuple, or reports that the seeds are invalid.
#[verifier::external_body]
fn create_pda(seeds: &Vec<Vec<u8>>, program_id: &Key) -> (r: Option<Key>)
    ensures
        match r {
            Some(k) => pda_of(seeds.deep_view(), program_id@) == Some(k@),
            None => pda_of(seeds.deep_view(), program_id@) is None,
        },
{
    let refs: Vec<&[u8]> = seeds.iter().map(|s| s.as_slice()).collect();
    let pid = anchor_lang::prelude::Pubkey::new_from_array(program_id.bytes);
    match anchor_lang::prelude::Pubkey::create_program_address(&refs, &pid) {
        Ok(pk) => Some(Key { bytes: pk.to_bytes() }),
        Err(_) => None,
    }
}

/// The fixed seed of the global registry.
pub open spec fn global_tag() -> Seq<u8> {
    seq![103u8, 108u8, 111u8, 98u8, 97u8, 108u8]
}

/// The role literal of a collection record.
pub open spec fn collection_tag() -> Seq<u8> {
    seq![99u8, 111u8, 108u8, 108u8, 101u8, 99u8, 116u8, 105u8, 111u8, 110u8]
}

/// The role literal of a price-model record.
pub open spec fn price_model_tag() -> Seq<u8> {
    seq![112u8, 114u8, 105u8, 99u8, 101u8, 95u8, 109u8, 111u8, 100u8, 101u8, 108u8]
}

/// The role literal of a head sentinel.
pub open spec fn head_tag() -> Seq<u8> {
    seq![104u8, 101u8, 97u8, 100u8]
}

/// The role literal of a tail sentinel.
pub open spec fn tail_tag() -> Seq<u8> {
    seq![116u8, 97u8, 105u8, 108u8]
}

/// Seed tuple of the global registry.
pub open spec fn global_seeds() -> Seq<Seq<u8>> {
    seq![global_tag()]
}

/// Seed tuple of a market: the registry's address and the market index.
pub open spec fn market_seeds(global: Seq<u8>, index: u32) -> Seq<Seq<u8>> {
    seq![global, vstd::bytes::spec_u32_to_le_bytes(index)]
}

/// Seed tuple of a collection: the market's address, the collection
/// index, and the role literal.
pub open spec fn collection_seeds(market: Seq<u8>, index: u32) -> Seq<Seq<u8>> {
    seq![market, vstd::bytes::spec_u32_to_le_bytes(index), collection_tag()]
}

/// Seed tuple of a price model: the market's address, the price-model
/// index, and the role literal.
pub open spec fn price_model_seeds(market: Seq<u8>, index: u32) -> Seq<Seq<u8>> {
    seq![market, vstd::bytes::spec_u32_to_le_bytes(index), price_model_tag()]
}

/// Seed tuple of a head sentinel: the collection's address and the role
/// literal.
pub open spec fn head_seeds(collection: Seq<u8>) -> Seq<Seq<u8>> {
    seq![collection, head_tag()]
}

/// Seed tuple of a tail sentinel.
pub open spec fn tail_seeds(collection: Seq<u8>) -> Seq<Seq<u8>> {
    seq![collection, tail_tag()]
}

fn key_to_vec(k: &Key) -> (r: Vec<u8>)
    ensures
        r@ == k@,
{
    let mut v: Vec<u8> = Vec::new();
    let mut i: usize = 0;
    while i < 32
        invariant
            0 <= i <= 32,
            v@.len() == i,
            forall|j: int| 0 <= j < i ==> v@[j] == k.bytes@[j],
        decreases 32 - i,
    {
        v.push(k.bytes[i]);
        i += 1;
    }
    proof {
        assert(v@ =~= k@);
    }
    v
}

fn collection_tag_vec() -> (r: Vec<u8>)
    ensures
        r@ == collection_tag(),
{
    let mut v: Vec<u8> = Vec::new();
    v.push(99);
    v.push(111);
    v.push(108);
    v.push(108);
    v.push(101);
    v.push(99);
    v.push(116);
    v.push(105);
    v.push(111);
    v.push(110);
    proof {
        assert(v@ =~= collection_tag());
    }
    v
}

fn price_model_tag_vec() -> (r: Vec<u8>)
    ensures
        r@ == price_model_tag(),
{
    let mut v: Vec<u8> = Vec::new();
    v.push(112);
    v.push(114);
    v.push(105);
    v.push(99);
    v.push(101);
    v.push(95);
    v.push(109);
    v.push(111);
    v.push(100);
    v.push(101);
    v.push(108);
    proof {
        assert(v@ =~= price_model_tag());
    }
    v
}

fn head_tag_vec() -> (r: Vec<u8>)
    ensures
        r@ == head_tag(),
{
    let mut v: Vec<u8> = Vec::new();
    v.push(104);
    v.push(101);
    v.push(97);
    v.push(100);
    proof {
        assert(v@ =~= head_tag());
    }
    v
}

fn tail_tag_vec() -> (r: Vec<u8>)
    ensures
        r@ == tail_tag(),
{
    let mut v: Vec<u8> = Vec::new();
    v.push(116);
    v.push(97);
    v.push(105);
    v.push(108);
    proof {
        assert(v@ =~= tail_tag());
    }
    v
}

fn global_tag_vec() -> (r: Vec<u8>)
    ensures
        r@ == global_tag(),
{
    let mut v: Vec<u8> = Vec::new();
    v.push(103);
    v.push(108);
    v.push(111);
    v.push(98);
    v.push(97);
    v.push(108);
    proof {
        assert(v@ =~= global_tag());
    }
    v
}

/// Derives the global registry's address under `program_id`.
pub fn derive_global_address(program_id: &Key) -> (r: Option<(Key, u8)>)
    ensures
        match r {
            Some(p) => found_pda(global_seeds(), program_id@) == Some((p.0@, p.1)),
            None => found_pda(global_seeds(), program_id@) is None,
        },
{
    let mut seeds: Vec<Vec<u8>> = Vec::new();
    seeds.push(global_tag_vec());
    proof {
        assert(seeds.deep_view() =~~= global_seeds());
    }
    find_pda(&seeds, program_id)
}

/// Derives a market's address from the registry address and the market
/// index.
pub fn derive_market_address(program_id: &Key, global: &Key, index: u32) -> (r: Option<(Key, u8)>)
    ensures
        match r {
            Some(p) => found_pda(market_seeds(global@, index), program_id@) == Some((p.0@, p.1)),
            None => found_pda(market_seeds(global@, index), program_id@) is None,
        },
{
    let mut seeds: Vec<Vec<u8>> = Vec::new();
    seeds.push(key_to_vec(global));
    seeds.push(vstd::bytes::u32_to_le_bytes(index));
    proof {
        assert(seeds.deep_view() =~~= market_seeds(global@, index));
    }
    find_pda(&seeds, program_id)
}

/// Derives a collection's address from the market address and the
/// collection index.
pub fn derive_collection_address(program_id: &Key, market: &Key, index: u32) -> (r: Option<
    (Key, u8),
>)
    ensures
        match r {
            Some(p) => found_pda(collection_seeds(market@, index), program_id@) == Some(
                (p.0@, p.1),
            ),
            None => found_pda(collection_seeds(market@, index), program_id@) is None,
        },
{
    let mut seeds: Vec<Vec<u8>> = Vec::new();
    seeds.push(key_to_vec(market));
    seeds.push(vstd::bytes::u32_to_le_bytes(index));
    seeds.push(collection_tag_vec());
    proof {
        assert(seeds.deep_view() =~~= collection_seeds(market@, index));
    }
    find_pda(&seeds, program_id)
}

/// Derives a price model's address from the market address and the
/// price-model index.
pub fn derive_price_model_address(program_id: &Key, market: &Key, index: u32) -> (r: Option<
    (Key, u8),
>)
    ensures
        match r {
            Some(p) => found_pda(price_model_seeds(market@, index), program_id@) == Some(
                (p.0@, p.1),
            ),
            None => found_pda(price_model_seeds(market@, index), program_id@) is None,
        },
{
    let mut seeds: Vec<Vec<u8>> = Vec::new();
    seeds.push(key_to_vec(market));
    seeds.push(vstd::bytes::u32_to_le_bytes(index));
    seeds.push(price_model_tag_vec());
    proof {
        assert(seeds.deep_view() =~~= price_model_seeds(market@, index));
    }
    find_pda(&seeds, program_id)
}

/// Derives a head sentinel's address from its collection's address.
pub fn derive_head_address(program_id: &Key, collection: &Key) -> (r: Option<(Key, u8)>)
    ensures
        match r {
            Some(p) => found_pda(head_seeds(collection@), program_id@) == Some((p.0@, p.1)),
            None => found_pda(head_seeds(collection@), program_id@) is None,
        },
{
    let mut seeds: Vec<Vec<u8>> = Vec::new();
    seeds.push(key_to_vec(collection));
    seeds.push(head_tag_vec());
    proof {
        assert(seeds.deep_view() =~~= head_seeds(collection@));
    }
    find_pda(&seeds, program_id)
}

/// Derives a tail sentinel's address from its collection's address.
pub fn derive_tail_address(program_id: &Key, collection: &Key) -> (r: Option<(Key, u8)>)
    ensures
        match r {
            Some(p) => found_pda(tail_seeds(collection@), program_id@) == Some((p.0@, p.1)),
            None => found_pda(tail_seeds(collection@), program_id@) is None,
        },
{
    let mut seeds: Vec<Vec<u8>> = Vec::new();
    seeds.push(key_to_vec(collection));
    seeds.push(tail_tag_vec());
    proof {
        assert(seeds.deep_view() =~~= tail_seeds(collection@));
    }
    find_pda(&seeds, program_id)
}

/// Checks that a market seed tuple, completed with the stored bump seed,
/// reproduces an expected address: the lookup-consistency test a caller
/// runs before trusting a stored address.
pub fn market_address_matches(
    program_id: &Key,
    global: &Key,
    index: u32,
    bump: u8,
    expected: &Key,
) -> (r: bool)
    ensures
        r == (pda_of(market_seeds(global@, index).push(seq![bump]), program_id@) == Some(
            expected@,
        )),
{
    let mut seeds: Vec<Vec<u8>> = Vec::new();
    seeds.push(key_to_vec(global));
    seeds.push(vstd::bytes::u32_to_le_bytes(index));
    let mut bv: Vec<u8> = Vec::new();
    bv.push(bump);
    seeds.push(bv);
    proof {
        assert(seeds.deep_view() =~~= market_seeds(global@, index).push(seq![bump]));
    }
    match create_pda(&seeds, program_id) {
        Some(k) => key_eq(&k, expected),
        None => false,
    }
}

} // verus!
