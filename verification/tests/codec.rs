use finch::kmer::{pack_kmer, unpack_kmer};
use finch::numtext::{parse_dec, u64_to_dec};

#[test]
fn pack_scenarios() {
    assert_eq!(pack_kmer("ACGT"), (27, 4));
    assert_eq!(pack_kmer("TTTT"), (255, 4));
    assert_eq!(pack_kmer("GGGG"), (170, 4));
    assert_eq!(pack_kmer("A"), (0, 1));
    assert_eq!(pack_kmer(""), (0, 0));
}

#[test]
fn pack_is_case_insensitive() {
    assert_eq!(pack_kmer("acgt"), (27, 4));
    assert_eq!(pack_kmer("AcGt"), (27, 4));
}

#[test]
fn pack_maps_unknown_bases_to_zero() {
    assert_eq!(pack_kmer("N"), (0, 1));
    assert_eq!(pack_kmer("ANT"), (0 * 16 + 0 * 4 + 3, 3));
}

#[test]
fn unpack_scenarios() {
    assert_eq!(unpack_kmer(27, 4), "ACGT");
    assert_eq!(unpack_kmer(255, 4), "TTTT");
    assert_eq!(unpack_kmer(170, 4), "GGGG");
    assert_eq!(unpack_kmer(60, 3), "TTA");
    assert_eq!(unpack_kmer(1, 1), "C");
    assert_eq!(unpack_kmer(0, 3), "AAA");
    assert_eq!(unpack_kmer(0, 0), "");
}

#[test]
fn unpack_matches_needletail() {
    for (value, length) in [(27u64, 4u8), (255, 4), (170, 4), (60, 3), (1, 1), (0, 3)] {
        let theirs = needletail::bitkmer::bitmer_to_bytes((value, length));
        assert_eq!(unpack_kmer(value, length).as_bytes(), theirs.as_slice());
    }
}

#[test]
fn pack_unpack_round_trip() {
    for value in [0u64, 1, 27, 170, 255, 4095, u32::MAX as u64] {
        for length in [4u8, 8, 16] {
            if value < 1u64 << (2 * length) {
                assert_eq!(pack_kmer(&unpack_kmer(value, length)), (value, length));
            }
        }
    }
    let full = u64::MAX;
    assert_eq!(pack_kmer(&unpack_kmer(full, 32)), (full, 32));
}

#[test]
fn decimal_rendering() {
    assert_eq!(u64_to_dec(0), "0");
    assert_eq!(u64_to_dec(7), "7");
    assert_eq!(u64_to_dec(10), "10");
    assert_eq!(u64_to_dec(305), "305");
    assert_eq!(u64_to_dec(u64::MAX), "18446744073709551615");
}

#[test]
fn decimal_parsing() {
    assert_eq!(parse_dec("0"), Some(0));
    assert_eq!(parse_dec("10"), Some(10));
    assert_eq!(parse_dec("007"), Some(7));
    assert_eq!(parse_dec("18446744073709551615"), Some(u64::MAX));
    assert_eq!(parse_dec("18446744073709551616"), None);
    assert_eq!(parse_dec(""), None);
    assert_eq!(parse_dec("12x"), None);
    assert_eq!(parse_dec("-5"), None);
    assert_eq!(parse_dec("+5"), None);
    assert_eq!(parse_dec(" 5"), None);
}

#[test]
fn decimal_round_trip() {
    for n in [0u64, 1, 9, 10, 99, 100, 12345678901234567, u64::MAX] {
        assert_eq!(parse_dec(&u64_to_dec(n)), Some(n));
    }
}
