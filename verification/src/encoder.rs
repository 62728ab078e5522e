//! The encoding of a pixel as a field element.

use crate::error::Error;
use crate::field::encode;
use crate::field::le_value;
use crate::field::modulus;
use crate::field::FieldElement;
use crate::pixels::Pixel;
use vstd::prelude::*;

verus! {

/// The field element of a pixel: its four bytes, red first, read as a
/// little-endian number and reduced modulo the order of the field.
pub open spec fn encoded(p: Pixel) -> nat {
    le_value(p.bytes()) % modulus()
}

/// The number that the bytes of a pixel spell is below the order of the
/// field, so the reduction leaves it as it is.
pub proof fn lemma_encoded_value(p: Pixel)
    ensures
        encoded(p) == p.r + 256 * p.g + 65536 * p.b + 16777216 * p.a,
{
    reveal_with_fuel(le_value, 5);
    let s = p.bytes();
    assert(s.drop_first() =~= seq![p.g, p.b, p.a]);
    assert(s.drop_first().drop_first() =~= seq![p.b, p.a]);
    assert(s.drop_first().drop_first().drop_first() =~= seq![p.a]);
    assert(s.drop_first().drop_first().drop_first().drop_first() =~= Seq::<u8>::empty());
}

/// Four digits to the base 256 spell one number only.
proof fn lemma_digits_unique(a: Pixel, b: Pixel)
    requires
        a.r + 256 * a.g + 65536 * a.b + 16777216 * a.a == b.r + 256 * b.g + 65536 * b.b + 16777216
            * b.a,
    ensures
        a == b,
{
    let high_a = a.g + 256 * a.b + 65536 * a.a;
    let high_b = b.g + 256 * b.b + 65536 * b.a;
    assert(a.r - b.r == 256 * (high_b - high_a));
    assert(high_a == high_b);
    let top_a = a.b + 256 * a.a;
    let top_b = b.b + 256 * b.a;
    assert(a.g - b.g == 256 * (top_b - top_a));
    assert(top_a == top_b);
    assert(a.b - b.b == 256 * (b.a - a.a));
}

/// Pixels that differ in any channel have different field elements.
pub proof fn lemma_encoding_injective(p: Pixel, q: Pixel)
    ensures
        encoded(p) == encoded(q) <==> p == q,
{
    if encoded(p) == encoded(q) {
        lemma_encoded_value(p);
        lemma_encoded_value(q);
        lemma_digits_unique(p, q);
    }
}

/// Encodes a pixel. The four bytes of a pixel are fewer than the field
/// takes, so the encoding never fails.
pub fn encode_pixel(p: &Pixel) -> (r: Result<FieldElement, Error>)
    ensures
        r is Ok,
        r->Ok_0@ == encoded(*p),
{
    let bytes: [u8; 4] = p.as_bytes();
    encode(bytes.as_slice())
}

} // verus!
