//! The two hash functions of the state: Pedersen on field elements and the
//! truncated Keccak of names. Both are computed outside this library.

use vstd::prelude::*;
use crate::felt::{be_value, prime, Felt};

verus! {

/// 2^250: the truncated Keccak stays below it.
pub open spec fn pow2_250() -> nat {
    0x400000000000000000000000000000000000000000000000000000000000000nat
}

/// The 32 bytes of the Pedersen hash of two field elements, each given by its 32
/// bytes, as `starknet_api::hash::pedersen_hash` computes it.
pub uninterp spec fn pedersen_bytes(a: Seq<u8>, b: Seq<u8>) -> Seq<u8>;

/// The bytes of the truncated Keccak of a byte string, without leading zero
/// bytes, as `cairo_lang_starknet_classes::keccak::starknet_keccak` computes it.
pub uninterp spec fn keccak_bytes(data: Seq<u8>) -> Seq<u8>;

/// Calls `starknet_api::hash::pedersen_hash` on two field elements given by their
/// 32 big-endian bytes. Trusted: the result is the hash named `pedersen_bytes`, 32
/// bytes that spell a field element.
#[verifier::external_body]
fn pedersen_hash_bytes(a: &[u8], b: &[u8]) -> (r: Vec<u8>)
    requires
        a@.len() == 32,
        b@.len() == 32,
        be_value(a@) < prime(),
        be_value(b@) < prime(),
    ensures
        r@ == pedersen_bytes(a@, b@),
        r@.len() == 32,
        be_value(r@) < prime(),
{
    let x = starknet_api::hash::StarkFelt::new_unchecked(a.try_into().unwrap());
    let y = starknet_api::hash::StarkFelt::new_unchecked(b.try_into().unwrap());
    starknet_api::hash::pedersen_hash(&x, &y).bytes().to_vec()
}

/// Calls `cairo_lang_starknet_classes::keccak::starknet_keccak`. Trusted: the
/// result is the hash named `keccak_bytes`, at most 32 bytes that spell a number
/// below 2^250.
#[verifier::external_body]
fn starknet_keccak_bytes(data: &[u8]) -> (r: Vec<u8>)
    ensures
        r@ == keccak_bytes(data@),
        r@.len() <= 32,
        be_value(r@) < pow2_250(),
{
    cairo_lang_starknet_classes::keccak::starknet_keccak(data).to_bytes_be()
}

/// The Pedersen hash of two field elements.
pub open spec fn spec_pedersen(a: Felt, b: Felt) -> Felt {
    Felt::spec_from_value(be_value(pedersen_bytes(a.spec_bytes_be(), b.spec_bytes_be())))
}

/// The truncated Keccak of a byte string, as a field element.
pub open spec fn spec_starknet_keccak(data: Seq<u8>) -> Felt {
    Felt::spec_from_value(be_value(keccak_bytes(data)))
}

/// The Pedersen hash chained over `elems`, starting from `init`.
pub open spec fn spec_pedersen_fold(init: Felt, elems: Seq<Felt>) -> Felt
    decreases elems.len(),
{
    if elems.len() == 0 {
        init
    } else {
        spec_pedersen(spec_pedersen_fold(init, elems.drop_last()), elems.last())
    }
}

/// The Pedersen hash of a sequence: the chain from zero, closed with the length.
pub open spec fn spec_pedersen_array(elems: Seq<Felt>) -> Felt {
    spec_pedersen(
        spec_pedersen_fold(Felt::spec_zero(), elems),
        Felt::spec_from_value(elems.len()),
    )
}

/// The Pedersen hash of two field elements.
pub fn pedersen_hash(a: &Felt, b: &Felt) -> (r: Felt)
    ensures
        r == spec_pedersen(*a, *b),
{
    let x = a.to_bytes_be();
    let y = b.to_bytes_be();
    let h = pedersen_hash_bytes(x.as_slice(), y.as_slice());
    match Felt::from_bytes_be(h.as_slice()) {
        Some(f) => {
            proof {
                Felt::lemma_spec_from_value(f);
            }
            f
        },
        None => Felt::zero(),
    }
}

/// The Pedersen hash chained over `elems`, starting from `init`.
pub fn pedersen_fold(init: Felt, elems: &Vec<Felt>) -> (r: Felt)
    ensures
        r == spec_pedersen_fold(init, elems@),
{
    let mut acc = init;
    let mut i: usize = 0;
    while i < elems.len()
        invariant
            i <= elems@.len(),
            acc == spec_pedersen_fold(init, elems@.take(i as int)),
        decreases elems@.len() - i,
    {
        proof {
            assert(elems@.take(i + 1).drop_last() =~= elems@.take(i as int));
        }
        acc = pedersen_hash(&acc, &elems[i]);
        i += 1;
    }
    proof {
        assert(elems@.take(elems@.len() as int) =~= elems@);
    }
    acc
}

/// The Pedersen hash of a sequence of field elements.
pub fn pedersen_hash_array(elems: &Vec<Felt>) -> (r: Felt)
    ensures
        r == spec_pedersen_array(elems@),
{
    let chained = pedersen_fold(Felt::zero(), elems);
    let len = Felt::from_u64(elems.len() as u64);
    proof {
        Felt::lemma_spec_from_value(len);
    }
    pedersen_hash(&chained, &len)
}

/// The truncated Keccak of a byte string.
pub fn starknet_keccak(data: &[u8]) -> (r: Felt)
    ensures
        r == spec_starknet_keccak(data@),
        r.value() < pow2_250(),
{
    let h = starknet_keccak_bytes(data);
    let f = Felt::from_bytes_be_slice(h.as_slice());
    proof {
        Felt::lemma_spec_from_value(f);
    }
    f
}

} // verus!
