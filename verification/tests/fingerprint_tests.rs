use repeated_photos::fingerprint::{distance, get_image_hash, Fingerprint, FINGERPRINT_BITS};
use repeated_photos::normalize::NormalizedImage;

fn fp(bits: u64) -> Fingerprint {
    Fingerprint { bits }
}

fn canvas_from(side: u32, shade: fn(u32, u32) -> u8) -> NormalizedImage {
    let mut pixels = Vec::new();
    for y in 0..side {
        for x in 0..side {
            pixels.push(shade(x, y));
        }
    }
    NormalizedImage::new(side, pixels).unwrap()
}

fn rising(x: u32, _y: u32) -> u8 {
    (x * 4) as u8
}

fn falling(x: u32, _y: u32) -> u8 {
    (252 - x * 4) as u8
}

#[test]
fn distance_counts_differing_bits() {
    assert_eq!(distance(&fp(0), &fp(0)), 0);
    assert_eq!(distance(&fp(0), &fp(1)), 1);
    assert_eq!(distance(&fp(0), &fp(0xff)), 8);
    assert_eq!(distance(&fp(0b1010), &fp(0b0110)), 2);
    assert_eq!(distance(&fp(0), &fp(1 << 63)), 1);
    assert_eq!(distance(&fp(0x0123_4567_89ab_cdef), &fp(0xfedc_ba98_7654_3210)), 64);
    assert_eq!(distance(&fp(0), &fp(u64::MAX)), FINGERPRINT_BITS);
}

#[test]
fn distance_matches_popcount_of_xor() {
    let samples: [u64; 6] = [
        0,
        1,
        0x8000_0000_0000_0001,
        0xdead_beef_cafe_f00d,
        0x0f0f_0f0f_f0f0_f0f0,
        u64::MAX,
    ];
    for a in samples {
        for b in samples {
            assert_eq!(distance(&fp(a), &fp(b)), (a ^ b).count_ones());
        }
    }
}

#[test]
fn distance_is_symmetric() {
    let a = fp(0x1234_5678_9abc_def0);
    let b = fp(0x0fed_cba9_8765_4321);
    assert_eq!(distance(&a, &b), distance(&b, &a));
    assert_eq!(distance(&a, &b), 36);
}

#[test]
fn distance_to_itself_is_zero() {
    for bits in [0u64, 1, 0xdead_beef, u64::MAX] {
        assert_eq!(distance(&fp(bits), &fp(bits)), 0);
    }
}

#[test]
fn distance_zero_only_for_equal_fingerprints() {
    for shift in 0..64 {
        assert_eq!(distance(&fp(0x55aa), &fp(0x55aa ^ (1u64 << shift))), 1);
    }
}

#[test]
fn from_bytes_packs_least_significant_byte_first() {
    assert_eq!(Fingerprint::from_bytes(&[1, 0, 0, 0, 0, 0, 0, 0]), Some(fp(1)));
    assert_eq!(Fingerprint::from_bytes(&[0, 0, 0, 0, 0, 0, 0, 0x80]), Some(fp(1 << 63)));
    assert_eq!(
        Fingerprint::from_bytes(&[0xef, 0xcd, 0xab, 0x89, 0x67, 0x45, 0x23, 0x01]),
        Some(fp(0x0123_4567_89ab_cdef))
    );
}

#[test]
fn from_bytes_wants_eight_bytes() {
    assert_eq!(Fingerprint::from_bytes(&[]), None);
    assert_eq!(Fingerprint::from_bytes(&[1, 2, 3, 4, 5, 6, 7]), None);
    assert_eq!(Fingerprint::from_bytes(&[1, 2, 3, 4, 5, 6, 7, 8, 9]), None);
}

#[test]
fn hash_of_rising_rows_sets_every_bit() {
    let image = canvas_from(64, rising);
    assert_eq!(get_image_hash(&image), fp(u64::MAX));
}

#[test]
fn hash_of_falling_rows_sets_no_bit() {
    let image = canvas_from(64, falling);
    assert_eq!(get_image_hash(&image), fp(0));
}

#[test]
fn hash_is_the_same_on_every_call() {
    let image = canvas_from(64, rising);
    let first = get_image_hash(&image);
    for _ in 0..5 {
        assert_eq!(get_image_hash(&image), first);
    }
    let copy = canvas_from(64, rising);
    assert_eq!(get_image_hash(&copy), first);
}
