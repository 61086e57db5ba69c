use serde_mtproto::utils;

const I128_PARTS: &[(i128, (i64, u64))] = &[
    (0x0000_0000_0000_0000_0000_0000_0000_0000, (0x0000_0000_0000_0000, 0x0000_0000_0000_0000)),
    (0x0000_0000_0000_0000_FFFF_FFFF_FFFF_FFFF, (0x0000_0000_0000_0000, 0xFFFF_FFFF_FFFF_FFFF)),
    (0x7777_7777_7777_7777_FFFF_FFFF_FFFF_FFFF, (0x7777_7777_7777_7777, 0xFFFF_FFFF_FFFF_FFFF)),
    (-0x8000_0000_0000_0000_0000_0000_0000_0000, (-0x8000_0000_0000_0000, 0x0000_0000_0000_0000)),
    (-0x0000_0000_0000_0000_0000_0000_0000_0001, (-0x0000_0000_0000_0001, 0xFFFF_FFFF_FFFF_FFFF)),
];

#[test]
fn i128_from_parts() {
    for &(n, (hi, lo)) in I128_PARTS {
        assert_eq!(utils::i128_from_parts(hi, lo), n);
    }
}

#[test]
fn i128_to_parts() {
    for &(n, (hi, lo)) in I128_PARTS {
        assert_eq!(utils::i128_to_parts(n), (hi, lo));
    }
}

const U128_PARTS: &[(u128, (u64, u64))] = &[
    (0x0000_0000_0000_0000_0000_0000_0000_0000, (0x0000_0000_0000_0000, 0x0000_0000_0000_0000)),
    (0x0000_0000_0000_0000_FFFF_FFFF_FFFF_FFFF, (0x0000_0000_0000_0000, 0xFFFF_FFFF_FFFF_FFFF)),
    (0x7777_7777_7777_7777_FFFF_FFFF_FFFF_FFFF, (0x7777_7777_7777_7777, 0xFFFF_FFFF_FFFF_FFFF)),
    (0x8000_0000_0000_0000_0000_0000_0000_0000, (0x8000_0000_0000_0000, 0x0000_0000_0000_0000)),
    (0xFFFF_FFFF_FFFF_FFFF_FFFF_FFFF_FFFF_FFFF, (0xFFFF_FFFF_FFFF_FFFF, 0xFFFF_FFFF_FFFF_FFFF)),
];

#[test]
fn u128_from_parts() {
    for &(n, (hi, lo)) in U128_PARTS {
        assert_eq!(utils::u128_from_parts(hi, lo), n);
    }
}

#[test]
fn u128_to_parts() {
    for &(n, (hi, lo)) in U128_PARTS {
        assert_eq!(utils::u128_to_parts(n), (hi, lo));
    }
}
