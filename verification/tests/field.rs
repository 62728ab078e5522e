use thumbnail_proof::encoder::encode_pixel;
use thumbnail_proof::error::Error;
use thumbnail_proof::field::encode;
use thumbnail_proof::field::FieldElement;
use thumbnail_proof::field::FIELD_BYTES;
use thumbnail_proof::pixels::Pixel;

const MODULUS_BYTES: [u8; 32] = [
    1, 0, 0, 240, 147, 245, 225, 67, 145, 112, 185, 121, 72, 232, 51, 40, 93, 88, 129, 129, 182,
    69, 80, 184, 41, 160, 49, 225, 114, 78, 100, 48,
];

#[test]
fn zero_and_one_have_their_limbs() {
    assert_eq!(FieldElement::zero().limbs(), [0, 0, 0, 0]);
    assert_eq!(FieldElement::one().limbs(), [1, 0, 0, 0]);
    assert_ne!(FieldElement::zero(), FieldElement::one());
}

#[test]
fn from_limbs_takes_what_is_below_the_modulus() {
    let top = [0x43e1f593f0000000u64, 0x2833e84879b97091, 0xb85045b68181585d, 0x30644e72e131a029];
    let e = FieldElement::from_limbs(top).unwrap();
    assert_eq!(e.limbs(), top);
    assert_eq!(FieldElement::from_limbs([1, 0, 0, 0]), Some(FieldElement::one()));
}

#[test]
fn from_limbs_refuses_the_modulus_and_above() {
    let modulus =
        [0x43e1f593f0000001u64, 0x2833e84879b97091, 0xb85045b68181585d, 0x30644e72e131a029];
    assert_eq!(FieldElement::from_limbs(modulus), None);
    assert_eq!(FieldElement::from_limbs([0, 0, 0, 0x30644e72e131a02a]), None);
    assert_eq!(FieldElement::from_limbs([u64::MAX; 4]), None);
}

#[test]
fn encode_of_nothing_is_zero() {
    assert_eq!(encode(&[]), Ok(FieldElement::zero()));
}

#[test]
fn encode_reads_little_endian() {
    let e = encode(&[1, 2, 3, 4]).unwrap();
    assert_eq!(e.limbs(), [67305985, 0, 0, 0]);
    let e = encode(&[0, 0, 0, 0, 0, 0, 0, 0, 7]).unwrap();
    assert_eq!(e.limbs(), [0, 7, 0, 0]);
}

#[test]
fn encode_fills_all_limbs() {
    let bytes: Vec<u8> = (1u8..=32).collect();
    let e = encode(&bytes).unwrap();
    assert_eq!(
        e.limbs(),
        [0x0807060504030201, 0x100f0e0d0c0b0a09, 0x1817161514131211, 0x201f1e1d1c1b1a19]
    );
    let e = encode(&bytes[..31]).unwrap();
    assert_eq!(
        e.limbs(),
        [0x0807060504030201, 0x100f0e0d0c0b0a09, 0x1817161514131211, 0x001f1e1d1c1b1a19]
    );
}

#[test]
fn encode_ignores_trailing_zero_bytes() {
    assert_eq!(encode(&[9, 8, 7, 6]), encode(&[9, 8, 7, 6, 0, 0, 0, 0, 0, 0, 0, 0]));
}

#[test]
fn encode_reduces_modulo_the_order() {
    assert_eq!(encode(&MODULUS_BYTES), Ok(FieldElement::zero()));
    let mut above = MODULUS_BYTES;
    above[0] = 6;
    assert_eq!(encode(&above).unwrap().limbs(), [5, 0, 0, 0]);
    let mut below = MODULUS_BYTES;
    below[0] = 0;
    assert_eq!(
        encode(&below).unwrap().limbs(),
        [0x43e1f593f0000000, 0x2833e84879b97091, 0xb85045b68181585d, 0x30644e72e131a029]
    );
}

#[test]
fn encode_reduces_the_largest_input() {
    let e = encode(&[0xff; 32]).unwrap();
    assert_eq!(
        e.limbs(),
        [0xac96341c4ffffffa, 0x36fc76959f60cd29, 0x666ea36f7879462e, 0x0e0a77c19a07df2f]
    );
}

#[test]
fn encode_refuses_more_than_the_field_takes() {
    assert_eq!(FIELD_BYTES, 32);
    assert_eq!(encode(&[0u8; 33]), Err(Error::EncodingError));
    assert_eq!(encode(&[1u8; 64]), Err(Error::EncodingError));
    assert!(encode(&[0u8; 32]).is_ok());
}

#[test]
fn encoding_the_same_bytes_twice_gives_the_same_element() {
    let bytes = [200u8, 100, 50, 25];
    assert_eq!(encode(&bytes), encode(&bytes));
    let p = Pixel { r: 200, g: 100, b: 50, a: 25 };
    assert_eq!(encode_pixel(&p), encode_pixel(&p));
    assert_eq!(encode_pixel(&p), encode(&bytes));
}

#[test]
fn pixel_bytes_are_in_channel_order() {
    let p = Pixel { r: 1, g: 2, b: 3, a: 4 };
    assert_eq!(p.as_bytes(), [1, 2, 3, 4]);
}

#[test]
fn encode_pixel_has_the_value_of_its_bytes() {
    let p = Pixel { r: 1, g: 2, b: 3, a: 4 };
    assert_eq!(encode_pixel(&p).unwrap().limbs(), [67305985, 0, 0, 0]);
    let white = Pixel { r: 255, g: 255, b: 255, a: 255 };
    assert_eq!(encode_pixel(&white).unwrap().limbs(), [0xffff_ffff, 0, 0, 0]);
    let unit = Pixel { r: 1, g: 0, b: 0, a: 0 };
    assert_eq!(encode_pixel(&unit), Ok(FieldElement::one()));
}

#[test]
fn different_pixels_have_different_elements() {
    let p = Pixel { r: 10, g: 20, b: 30, a: 40 };
    for q in [
        Pixel { r: 11, ..p },
        Pixel { g: 21, ..p },
        Pixel { b: 31, ..p },
        Pixel { a: 41, ..p },
        Pixel { r: 20, g: 10, ..p },
    ] {
        assert_ne!(encode_pixel(&p), encode_pixel(&q));
    }
}
