//! Elements of the scalar field of the BN254 curve, and the encoding of
//! bytes as such elements.

use crate::error::Error;
use vstd::prelude::*;

verus! {

/// The order of the scalar field: a prime of 254 bits.
pub open spec fn modulus() -> nat {
    21888242871839275222246405745257275088548364400416034343698204186575808495617nat
}

/// The number of bytes that hold a value below [`modulus`].
pub const FIELD_BYTES: usize = 32;

const MODULUS_0: u64 = 0x43e1f593f0000001;

const MODULUS_1: u64 = 0x2833e84879b97091;

const MODULUS_2: u64 = 0xb85045b68181585d;

const MODULUS_3: u64 = 0x30644e72e131a029;

/// The number that four 64-bit limbs spell, least significant first.
pub open spec fn limbs_value(l0: u64, l1: u64, l2: u64, l3: u64) -> nat {
    (l0 as nat) + (l1 as nat) * 0x1_0000_0000_0000_0000nat + (l2 as nat)
        * 0x1_0000_0000_0000_0000_0000_0000_0000_0000nat + (l3 as nat)
        * 0x1_0000_0000_0000_0000_0000_0000_0000_0000_0000_0000_0000_0000nat
}

/// The number that a sequence of bytes spells, least significant first.
pub open spec fn le_value(bytes: Seq<u8>) -> nat
    decreases bytes.len(),
{
    if bytes.len() == 0 {
        0
    } else {
        (bytes[0] as nat) + 256 * le_value(bytes.drop_first())
    }
}

/// An element of the scalar field, stored as the one number below
/// [`modulus`] that stands for it.
#[derive(Clone, Copy, Debug, PartialEq, Eq, Structural)]
pub struct FieldElement {
    l0: u64,
    l1: u64,
    l2: u64,
    l3: u64,
}

impl View for FieldElement {
    type V = nat;

    closed spec fn view(&self) -> nat {
        limbs_value(self.l0, self.l1, self.l2, self.l3)
    }
}

impl FieldElement {
    #[verifier::type_invariant]
    spec fn canonical(self) -> bool {
        limbs_value(self.l0, self.l1, self.l2, self.l3) < modulus()
    }

    /// The additive identity.
    pub fn zero() -> (r: FieldElement)
        ensures
            r@ == 0,
    {
        FieldElement { l0: 0, l1: 0, l2: 0, l3: 0 }
    }

    /// The multiplicative identity.
    pub fn one() -> (r: FieldElement)
        ensures
            r@ == 1,
    {
        FieldElement { l0: 1, l1: 0, l2: 0, l3: 0 }
    }

    /// The four limbs of the stored number, least significant first.
    pub fn limbs(&self) -> (r: [u64; 4])
        ensures
            limbs_value(r[0], r[1], r[2], r[3]) == self@,
            self@ < modulus(),
    {
        proof {
            use_type_invariant(self);
        }
        [self.l0, self.l1, self.l2, self.l3]
    }

    /// The element that four limbs spell, where their number is below the
    /// modulus.
    pub fn from_limbs(limbs: [u64; 4]) -> (r: Option<FieldElement>)
        ensures
            match r {
                Some(e) => e@ == limbs_value(limbs[0], limbs[1], limbs[2], limbs[3]),
                None => limbs_value(limbs[0], limbs[1], limbs[2], limbs[3]) >= modulus(),
            },
    {
        if below_modulus(limbs[0], limbs[1], limbs[2], limbs[3]) {
            Some(FieldElement { l0: limbs[0], l1: limbs[1], l2: limbs[2], l3: limbs[3] })
        } else {
            None
        }
    }
}

/// Two field elements that stand for the same number are the same
/// element. So a number has one encoding, and encoding the same bytes
/// twice gives the same element.
pub proof fn lemma_same_number_same_element(a: FieldElement, b: FieldElement)
    requires
        a@ == b@,
    ensures
        a == b,
{
    let high_a = a.l1 + a.l2 * 0x1_0000_0000_0000_0000 + a.l3
        * 0x1_0000_0000_0000_0000_0000_0000_0000_0000;
    let high_b = b.l1 + b.l2 * 0x1_0000_0000_0000_0000 + b.l3
        * 0x1_0000_0000_0000_0000_0000_0000_0000_0000;
    assert(a.l0 - b.l0 == 0x1_0000_0000_0000_0000 * (high_b - high_a));
    assert(high_a == high_b);
    let top_a = a.l2 + a.l3 * 0x1_0000_0000_0000_0000;
    let top_b = b.l2 + b.l3 * 0x1_0000_0000_0000_0000;
    assert(a.l1 - b.l1 == 0x1_0000_0000_0000_0000 * (top_b - top_a));
    assert(top_a == top_b);
    assert(a.l2 - b.l2 == 0x1_0000_0000_0000_0000 * (b.l3 - a.l3));
}

/// Whether the number that the limbs spell is below the modulus.
fn below_modulus(l0: u64, l1: u64, l2: u64, l3: u64) -> (r: bool)
    ensures
        r == (limbs_value(l0, l1, l2, l3) < modulus()),
{
    if l3 != MODULUS_3 {
        l3 < MODULUS_3
    } else if l2 != MODULUS_2 {
        l2 < MODULUS_2
    } else if l1 != MODULUS_1 {
        l1 < MODULUS_1
    } else {
        l0 < MODULUS_0
    }
}

/// 256 raised to the power `k`.
pub open spec fn pow256(k: nat) -> nat
    decreases k,
{
    if k == 0 {
        1
    } else {
        256 * pow256((k - 1) as nat)
    }
}

/// `k` bytes spell a number below 256 to the power `k`.
pub proof fn lemma_le_value_bound(bytes: Seq<u8>)
    ensures
        le_value(bytes) < pow256(bytes.len()),
    decreases bytes.len(),
{
    if bytes.len() > 0 {
        lemma_le_value_bound(bytes.drop_first());
    }
}

proof fn lemma_pow256_monotone(j: nat, k: nat)
    requires
        j <= k,
    ensures
        pow256(j) <= pow256(k),
    decreases k,
{
    if j < k {
        lemma_pow256_monotone(j, (k - 1) as nat);
    }
}

proof fn lemma_pow256_values()
    ensures
        pow256(31) == 0x1_00_0000_0000_0000_0000_0000_0000_0000_0000_0000_0000_0000_0000_0000_0000_0000nat,
        pow256(32) == 0x1_0000_0000_0000_0000_0000_0000_0000_0000_0000_0000_0000_0000_0000_0000_0000_0000nat,
{
    reveal_with_fuel(pow256, 33);
}

/// Appends one byte below the least significant end of a number of at
/// most 31 bytes.
fn push_low_byte(l0: u64, l1: u64, l2: u64, l3: u64, b: u8) -> (r: (u64, u64, u64, u64))
    requires
        l3 < 0x100_0000_0000_0000,
    ensures
        limbs_value(r.0, r.1, r.2, r.3) == 256 * limbs_value(l0, l1, l2, l3) + b,
{
    let n0: u64 = (l0 % 0x100_0000_0000_0000) * 256 + b as u64;
    let n1: u64 = (l1 % 0x100_0000_0000_0000) * 256 + l0 / 0x100_0000_0000_0000;
    let n2: u64 = (l2 % 0x100_0000_0000_0000) * 256 + l1 / 0x100_0000_0000_0000;
    let n3: u64 = l3 * 256 + l2 / 0x100_0000_0000_0000;
    (n0, n1, n2, n3)
}

/// Takes the modulus off a number that is not below it.
fn sub_modulus(l0: u64, l1: u64, l2: u64, l3: u64) -> (r: (u64, u64, u64, u64))
    requires
        limbs_value(l0, l1, l2, l3) >= modulus(),
    ensures
        limbs_value(r.0, r.1, r.2, r.3) == limbs_value(l0, l1, l2, l3) - modulus(),
{
    let (d0, b0): (u64, u64) = if l0 >= MODULUS_0 {
        (l0 - MODULUS_0, 0)
    } else {
        (l0 + (u64::MAX - MODULUS_0) + 1, 1)
    };
    let s1: u64 = MODULUS_1 + b0;
    let (d1, b1): (u64, u64) = if l1 >= s1 {
        (l1 - s1, 0)
    } else {
        (l1 + (u64::MAX - s1) + 1, 1)
    };
    let s2: u64 = MODULUS_2 + b1;
    let (d2, b2): (u64, u64) = if l2 >= s2 {
        (l2 - s2, 0)
    } else {
        (l2 + (u64::MAX - s2) + 1, 1)
    };
    let s3: u64 = MODULUS_3 + b2;
    (d0, d1, d2, l3 - s3)
}

/// The field element that a little-endian byte string of at most
/// [`FIELD_BYTES`] bytes stands for: the number it spells, reduced modulo
/// the order of the field. A longer string is refused.
pub fn encode(bytes: &[u8]) -> (r: Result<FieldElement, Error>)
    ensures
        bytes@.len() > FIELD_BYTES ==> r == Err::<FieldElement, Error>(Error::EncodingError),
        bytes@.len() <= FIELD_BYTES ==> r is Ok && r->Ok_0@ == le_value(bytes@) % modulus(),
{
    let len: usize = bytes.len();
    if len > FIELD_BYTES {
        return Err(Error::EncodingError);
    }
    let mut l0: u64 = 0;
    let mut l1: u64 = 0;
    let mut l2: u64 = 0;
    let mut l3: u64 = 0;
    let mut i: usize = len;
    proof {
        assert(bytes@.subrange(len as int, len as int) =~= Seq::<u8>::empty());
    }
    while i > 0
        invariant
            i <= len == bytes@.len() <= 32,
            limbs_value(l0, l1, l2, l3) == le_value(bytes@.subrange(i as int, len as int)),
        decreases i,
    {
        let b: u8 = bytes[i - 1];
        proof {
            let tail = bytes@.subrange(i as int, len as int);
            let next = bytes@.subrange(i - 1, len as int);
            lemma_le_value_bound(tail);
            lemma_pow256_monotone(tail.len(), 31);
            lemma_pow256_values();
            assert(next.drop_first() =~= tail);
            assert(next[0] == b);
        }
        let (n0, n1, n2, n3) = push_low_byte(l0, l1, l2, l3, b);
        l0 = n0;
        l1 = n1;
        l2 = n2;
        l3 = n3;
        i = i - 1;
    }
    proof {
        assert(bytes@.subrange(0, len as int) =~= bytes@);
    }
    while !below_modulus(l0, l1, l2, l3)
        invariant
            limbs_value(l0, l1, l2, l3) % modulus() == le_value(bytes@) % modulus(),
        decreases limbs_value(l0, l1, l2, l3),
    {
        let (n0, n1, n2, n3) = sub_modulus(l0, l1, l2, l3);
        l0 = n0;
        l1 = n1;
        l2 = n2;
        l3 = n3;
    }
    Ok(FieldElement { l0, l1, l2, l3 })
}

} // verus!
