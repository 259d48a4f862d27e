//! Field elements of the Stark prime field, held as two 128-bit halves.

use vstd::prelude::*;

verus! {

/// The field's modulus, 2^251 + 17 * 2^192 + 1.
pub open spec fn prime() -> nat {
    0x800000000000011000000000000000000000000000000000000000000000001nat
}

/// 2^128, the weight of the upper half of a field element.
pub open spec fn pow2_128() -> nat {
    0x1_0000_0000_0000_0000_0000_0000_0000_0000nat
}

/// 2^251, the exclusive upper bound of addresses and storage keys.
pub open spec fn pow2_251() -> nat {
    0x800000000000000000000000000000000000000000000000000000000000000nat
}

/// The upper half of the modulus; its lower half is one.
pub const PRIME_HI: u128 = 0x0800_0000_0000_0011_0000_0000_0000_0000u128;

/// The exclusive upper bound of computed addresses and storage-variable keys,
/// 2^251 - 256.
pub open spec fn address_bound() -> nat {
    (pow2_251() - 256) as nat
}

/// The upper half of `address_bound()`.
pub const ADDRESS_BOUND_HI: u128 = 0x07ff_ffff_ffff_ffff_ffff_ffff_ffff_ffffu128;

/// The lower half of `address_bound()`.
pub const ADDRESS_BOUND_LO: u128 = 0xffff_ffff_ffff_ffff_ffff_ffff_ffff_ff00u128;

/// The upper half of 2^251.
pub const KEY_BOUND_HI: u128 = 0x0800_0000_0000_0000_0000_0000_0000_0000u128;

/// 256 to the power `n`.
pub open spec fn pow256(n: nat) -> nat
    decreases n,
{
    if n == 0 {
        1
    } else {
        256 * pow256((n - 1) as nat)
    }
}

/// The number that a byte string spells, most significant byte first.
pub open spec fn be_value(s: Seq<u8>) -> nat
    decreases s.len(),
{
    if s.len() == 0 {
        0
    } else {
        be_value(s.drop_last()) * 256 + s.last() as nat
    }
}

/// The powers of 256 that the conversions meet.
pub proof fn lemma_pow256_values()
    ensures
        pow256(0) == 1,
        pow256(1) == 256,
        pow256(8) == 0x1_0000_0000_0000_0000,
        pow256(15) == 0x1_0000_0000_0000_0000_0000_0000_0000_00,
        pow256(16) == pow2_128(),
        pow256(17) == 256 * pow2_128(),
{
    reveal_with_fuel(pow256, 18);
}

/// The powers of 256 are positive and grow with the exponent.
pub proof fn lemma_pow256_monotonic(a: nat, b: nat)
    requires
        a <= b,
    ensures
        0 < pow256(a) <= pow256(b),
    decreases b,
{
    if b == 0 {
    } else if a == b {
        lemma_pow256_monotonic(0, (b - 1) as nat);
    } else {
        lemma_pow256_monotonic(a, (b - 1) as nat);
    }
}

/// A byte string of length `n` spells a number below 256^n.
pub proof fn lemma_be_value_bound(s: Seq<u8>)
    ensures
        be_value(s) < pow256(s.len()),
    decreases s.len(),
{
    if s.len() > 0 {
        lemma_be_value_bound(s.drop_last());
    }
}

/// Spelling a concatenation: the left part is shifted by the length of the right part.
pub proof fn lemma_be_value_concat(a: Seq<u8>, b: Seq<u8>)
    ensures
        be_value(a + b) == be_value(a) * pow256(b.len()) + be_value(b),
    decreases b.len(),
{
    if b.len() == 0 {
        assert(a + b =~= a);
        assert(be_value(a) * 1 == be_value(a));
    } else {
        let ab = a + b;
        assert(ab.drop_last() =~= a + b.drop_last());
        assert(ab.last() == b.last());
        lemma_be_value_concat(a, b.drop_last());
        let x = be_value(a);
        let p = pow256((b.len() - 1) as nat);
        let y = be_value(b.drop_last());
        assert((x * p + y) * 256 == x * (256 * p) + y * 256) by (nonlinear_arith);
    }
}

/// Byte strings of one length that spell the same number are the same.
pub proof fn lemma_be_value_injective(a: Seq<u8>, b: Seq<u8>)
    requires
        a.len() == b.len(),
        be_value(a) == be_value(b),
    ensures
        a == b,
    decreases a.len(),
{
    if a.len() > 0 {
        lemma_be_value_injective(a.drop_last(), b.drop_last());
        assert(a =~= a.drop_last().push(a.last()));
        assert(b =~= b.drop_last().push(b.last()));
    } else {
        assert(a =~= b);
    }
}

/// The 32 bytes that spell `n`, most significant byte first, for `n` below 2^256.
pub open spec fn be_bytes32(n: nat) -> Seq<u8> {
    choose|s: Seq<u8>| s.len() == 32 && be_value(s) == n
}

/// Thirty-two bytes are the spelling of the number that they spell.
pub proof fn lemma_be_bytes32(s: Seq<u8>)
    requires
        s.len() == 32,
    ensures
        be_bytes32(be_value(s)) == s,
{
    let t = be_bytes32(be_value(s));
    lemma_be_value_injective(s, t);
}

/// A single byte spells itself.
pub proof fn lemma_be_value_single(b: u8)
    ensures
        be_value(seq![b]) == b,
{
    assert(seq![b].drop_last() =~= Seq::<u8>::empty());
    assert(be_value(seq![b]) == be_value(seq![b].drop_last()) * 256 + b as nat);
}

/// The sixteen bytes that spell `x`, most significant byte first.
pub fn u128_to_be_bytes(x: u128) -> (r: Vec<u8>)
    ensures
        r@.len() == 16,
        be_value(r@) == x,
{
    let mut v: Vec<u8> = Vec::new();
    let mut k: usize = 0;
    while k < 16
        invariant
            k <= 16,
            v@.len() == k,
        decreases 16 - k,
    {
        v.push(0u8);
        k += 1;
    }
    let mut rem: u128 = x;
    let mut i: usize = 0;
    proof {
        assert(v@.subrange(16, 16) =~= Seq::<u8>::empty());
        assert(rem * pow256(0) == rem) by (nonlinear_arith)
            requires
                pow256(0) == 1,
        ;
    }
    while i < 16
        invariant
            i <= 16,
            v@.len() == 16,
            be_value(v@.subrange(16 - i, 16)) + rem * pow256(i as nat) == x,
        decreases 16 - i,
    {
        let b: u8 = (rem % 256) as u8;
        let ghost before = v@;
        v.set(15 - i, b);
        proof {
            let old_sub = before.subrange(16 - i, 16);
            let new_sub = v@.subrange(15 - i, 16);
            assert(new_sub =~= seq![b] + old_sub);
            lemma_be_value_concat(seq![b], old_sub);
            lemma_be_value_single(b);
            let q = (rem / 256) as nat;
            let p = pow256(i as nat);
            assert(pow256((i + 1) as nat) == 256 * p);
            assert(rem == q * 256 + b);
            assert(rem * p == q * (256 * p) + b * p) by (nonlinear_arith)
                requires
                    rem == q * 256 + b,
            ;
        }
        rem = rem / 256;
        i += 1;
    }
    proof {
        lemma_pow256_values();
        assert(v@.subrange(0, 16) =~= v@);
        assert(rem == 0) by (nonlinear_arith)
            requires
                be_value(v@) + rem * pow256(16) == x,
                pow256(16) == pow2_128(),
                x < pow2_128(),
        ;
    }
    v
}

/// The number that the sixteen bytes from `start` on spell.
pub fn u128_from_be_bytes(bytes: &[u8], start: usize) -> (r: u128)
    requires
        start + 16 <= bytes@.len(),
    ensures
        r == be_value(bytes@.subrange(start as int, start + 16)),
{
    let n: usize = bytes.len();
    let mut acc: u128 = 0;
    let mut i: usize = 0;
    proof {
        assert(bytes@.subrange(start as int, start as int) =~= Seq::<u8>::empty());
    }
    while i < 16
        invariant
            i <= 16,
            n == bytes@.len(),
            start + 16 <= n,
            acc == be_value(bytes@.subrange(start as int, start + i)),
        decreases 16 - i,
    {
        let b: u8 = bytes[start + i];
        proof {
            let cur = bytes@.subrange(start as int, start + i);
            let next = bytes@.subrange(start as int, start + i + 1);
            assert(next.drop_last() =~= cur);
            assert(next.last() == b);
            lemma_be_value_bound(cur);
            lemma_pow256_monotonic(i as nat, 15);
            lemma_pow256_values();
        }
        acc = acc * 256 + b as u128;
        i += 1;
    }
    acc
}

/// Calls `starknet_types_core::felt::Felt::from_bytes_be_slice` and hands back the
/// result's 32 big-endian bytes. Trusted: the bytes spell the number that the input
/// spells, reduced modulo the field's modulus.
#[verifier::external_body]
fn reduce_be_bytes(bytes: &[u8]) -> (r: Vec<u8>)
    ensures
        r@.len() == 32,
        be_value(r@) == be_value(bytes@) % prime(),
{
    starknet_types_core::felt::Felt::from_bytes_be_slice(bytes).to_bytes_be().to_vec()
}

/// A field element. Its value is `hi * 2^128 + lo`, and always below the modulus.
#[derive(Clone, Copy, Debug, PartialEq, Eq, Structural, Hash)]
pub struct Felt {
    hi: u128,
    lo: u128,
}

impl Felt {
    #[verifier::type_invariant]
    spec fn canonical(self) -> bool {
        self.hi < PRIME_HI || (self.hi == PRIME_HI && self.lo == 0)
    }

    /// The integer in `[0, prime())` that this element stands for, where the element is valid.
    pub closed spec fn value(self) -> nat {
        self.hi as nat * pow2_128() + self.lo as nat
    }

    /// The element with the value `n`, for `n` below the modulus.
    pub closed spec fn spec_from_value(n: nat) -> Felt {
        Felt { hi: (n / pow2_128()) as u128, lo: (n % pow2_128()) as u128 }
    }

    /// `spec_from_value` gives the element of that value, and no other element has it.
    pub broadcast proof fn lemma_spec_from_value(f: Felt)
        requires
            f.is_canonical(),
        ensures
            #[trigger] Felt::spec_from_value(f.value()) == f,
    {
    }

    /// Below the modulus, `spec_from_value` and `value` undo each other.
    pub proof fn lemma_value_of_spec_from_value(n: nat)
        requires
            n < prime(),
        ensures
            Felt::spec_from_value(n).value() == n,
            Felt::spec_from_value(n).is_canonical(),
    {
    }

    /// The 32 bytes that spell the value, most significant byte first.
    pub open spec fn spec_bytes_be(self) -> Seq<u8> {
        be_bytes32(self.value())
    }

    /// Whether a value of this type is a field element; every executable value is.
    pub open spec fn is_canonical(self) -> bool {
        self.value() < prime()
    }

    /// Two elements with the same value are the same element.
    pub broadcast proof fn lemma_value_injective(a: Felt, b: Felt)
        ensures
            #[trigger] a.value() == #[trigger] b.value() ==> a == b,
    {
    }

    /// Every executable field element is canonical.
    pub fn check_canonical(&self)
        ensures
            self.is_canonical(),
    {
        proof {
            use_type_invariant(self);
        }
    }

    /// The additive identity, as a specification.
    pub closed spec fn spec_zero() -> Felt {
        Felt { hi: 0, lo: 0 }
    }

    /// The additive identity has the value zero, and is the only element that has it.
    pub broadcast proof fn lemma_spec_zero(f: Felt)
        ensures
            #[trigger] f.value() == 0 <==> f == Felt::spec_zero(),
    {
    }

    pub fn zero() -> (r: Felt)
        ensures
            r == Felt::spec_zero(),
            r.value() == 0,
    {
        Felt { hi: 0, lo: 0 }
    }

    pub fn one() -> (r: Felt)
        ensures
            r.value() == 1,
    {
        Felt { hi: 0, lo: 1 }
    }

    pub fn from_u128(x: u128) -> (r: Felt)
        ensures
            r.value() == x,
            r == Felt::spec_from_value(x as nat),
    {
        Felt { hi: 0, lo: x }
    }

    pub fn from_u64(x: u64) -> (r: Felt)
        ensures
            r.value() == x,
            r == Felt::spec_from_value(x as nat),
    {
        Felt { hi: 0, lo: x as u128 }
    }

    pub fn from_u32(x: u32) -> (r: Felt)
        ensures
            r.value() == x,
            r == Felt::spec_from_value(x as nat),
    {
        Felt { hi: 0, lo: x as u128 }
    }

    pub fn from_bool(b: bool) -> (r: Felt)
        ensures
            r.value() == if b { 1nat } else { 0nat },
    {
        Felt { hi: 0, lo: if b { 1 } else { 0 } }
    }

    /// The element `hi * 2^128 + lo`, if that is below the modulus.
    pub fn from_halves(hi: u128, lo: u128) -> (r: Option<Felt>)
        ensures
            match r {
                Some(f) => f.value() == hi as nat * pow2_128() + lo as nat && f.is_canonical(),
                None => hi as nat * pow2_128() + lo as nat >= prime(),
            },
    {
        if hi < PRIME_HI || (hi == PRIME_HI && lo == 0) {
            Some(Felt { hi, lo })
        } else {
            None
        }
    }

    pub fn is_zero(&self) -> (b: bool)
        ensures
            b == (self.value() == 0),
            b == (*self == Felt::spec_zero()),
    {
        self.hi == 0 && self.lo == 0
    }

    /// The value as a `u128`, where it fits.
    pub fn to_u128(&self) -> (r: Option<u128>)
        ensures
            r == if self.value() < pow2_128() {
                Some(self.value() as u128)
            } else {
                None
            },
    {
        if self.hi == 0 {
            Some(self.lo)
        } else {
            None
        }
    }

    /// The value as a `u64`, where it fits.
    pub fn to_u64(&self) -> (r: Option<u64>)
        ensures
            r == if self.value() <= u64::MAX {
                Some(self.value() as u64)
            } else {
                None
            },
    {
        if self.hi == 0 && self.lo <= u64::MAX as u128 {
            Some(self.lo as u64)
        } else {
            None
        }
    }

    /// Whether the value lies below 2^251, the range of addresses and storage keys.
    pub fn is_below_key_bound(&self) -> (b: bool)
        ensures
            b == (self.value() < pow2_251()),
    {
        self.hi < KEY_BOUND_HI
    }

    /// Order of the values.
    pub fn lt(&self, other: &Felt) -> (b: bool)
        ensures
            b == (self.value() < other.value()),
    {
        self.hi < other.hi || (self.hi == other.hi && self.lo < other.lo)
    }

    /// The value reduced modulo 2^251 - 256, the range of computed addresses.
    pub fn mod_address_bound(&self) -> (r: Felt)
        ensures
            r.value() == self.value() % address_bound(),
            r.value() < address_bound(),
    {
        proof {
            use_type_invariant(self);
        }
        let ghost v = self.value() as int;
        let ghost b = address_bound() as int;
        if self.hi < ADDRESS_BOUND_HI || (self.hi == ADDRESS_BOUND_HI && self.lo
            < ADDRESS_BOUND_LO) {
            proof {
                vstd::arithmetic::div_mod::lemma_fundamental_div_mod_converse(v, b, 0, v);
            }
            *self
        } else {
            proof {
                vstd::arithmetic::div_mod::lemma_fundamental_div_mod_converse(v, b, 1, v - b);
            }
            if self.lo >= ADDRESS_BOUND_LO {
                Felt { hi: self.hi - ADDRESS_BOUND_HI, lo: self.lo - ADDRESS_BOUND_LO }
            } else {
                Felt { hi: self.hi - ADDRESS_BOUND_HI - 1, lo: self.lo + 256 }
            }
        }
    }

    /// The successor, unless it leaves the field.
    pub fn checked_increment(&self) -> (r: Option<Felt>)
        ensures
            match r {
                Some(f) => f.value() == self.value() + 1 && f.is_canonical(),
                None => self.value() + 1 == prime(),
            },
    {
        proof {
            use_type_invariant(self);
        }
        if self.lo == u128::MAX {
            Some(Felt { hi: self.hi + 1, lo: 0 })
        } else if self.hi == PRIME_HI {
            None
        } else {
            Some(Felt { hi: self.hi, lo: self.lo + 1 })
        }
    }
    /// The 32 bytes that spell the value, most significant byte first.
    pub fn to_bytes_be(&self) -> (r: Vec<u8>)
        ensures
            r@ == self.spec_bytes_be(),
            r@.len() == 32,
            be_value(r@) == self.value(),
            self.is_canonical(),
    {
        self.check_canonical();
        let mut out = u128_to_be_bytes(self.hi);
        let mut low = u128_to_be_bytes(self.lo);
        proof {
            lemma_be_value_concat(out@, low@);
            lemma_pow256_values();
            lemma_be_bytes32(out@ + low@);
        }
        out.append(&mut low);
        out
    }

    /// The element that 32 bytes spell, most significant byte first; `None` where the
    /// length is not 32 or the number is not below the modulus.
    pub fn from_bytes_be(bytes: &[u8]) -> (r: Option<Felt>)
        ensures
            r is Some <==> bytes@.len() == 32 && be_value(bytes@) < prime(),
            r matches Some(f) ==> f.value() == be_value(bytes@),
    {
        if bytes.len() != 32 {
            return None;
        }
        let hi = u128_from_be_bytes(bytes, 0);
        let lo = u128_from_be_bytes(bytes, 16);
        proof {
            let a = bytes@.subrange(0, 16);
            let b = bytes@.subrange(16, 32);
            assert(bytes@ =~= a + b);
            lemma_be_value_concat(a, b);
            lemma_pow256_values();
        }
        Felt::from_halves(hi, lo)
    }

    /// The element that a byte string of any length spells, most significant byte
    /// first, reduced modulo the field's modulus.
    pub fn from_bytes_be_slice(bytes: &[u8]) -> (r: Felt)
        ensures
            r.value() == be_value(bytes@) % prime(),
    {
        let reduced = reduce_be_bytes(bytes);
        match Felt::from_bytes_be(reduced.as_slice()) {
            Some(f) => f,
            None => Felt::zero(),
        }
    }
}

} // verus!
