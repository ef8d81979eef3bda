//! Fingerprints: 64-bit perceptual hashes and the Hamming distance on them.

use crate::normalize::{NormalizedImage, NormalizedView};
use vstd::prelude::*;

verus! {

/// Number of bits in a fingerprint.
pub const FINGERPRINT_BITS: u32 = 64;

/// Number of bytes in a fingerprint.
pub const FINGERPRINT_BYTES: usize = 8;

/// A perceptual hash of one normalized image: a vector of 64 bits.
///
/// Bit `i` of the hash is bit `i` of `bits`, counted from the least
/// significant end.
#[derive(Clone, Copy, Debug, PartialEq, Eq, Hash, Structural)]
pub struct Fingerprint {
    pub bits: u64,
}

/// The 64-bit word whose bytes, from the least significant up, are `bytes`.
pub open spec fn word_of_bytes(bytes: Seq<u8>) -> u64
    recommends
        bytes.len() == 8,
{
    (bytes[0] as u64) | (bytes[1] as u64) << 8 | (bytes[2] as u64) << 16 | (bytes[3] as u64) << 24
        | (bytes[4] as u64) << 32 | (bytes[5] as u64) << 40 | (bytes[6] as u64) << 48 | (
    bytes[7] as u64) << 56
}

impl Fingerprint {
    /// The fingerprint whose hash bytes are `bytes`, first byte first and
    /// each byte from its least significant bit up. There is one only for
    /// exactly eight bytes.
    pub fn from_bytes(bytes: &[u8]) -> (fingerprint: Option<Fingerprint>)
        ensures
            fingerprint is Some <==> bytes@.len() == FINGERPRINT_BYTES,
            fingerprint matches Some(f) ==> f.bits == word_of_bytes(bytes@),
    {
        if bytes.len() == FINGERPRINT_BYTES {
            Some(Fingerprint { bits: pack(bytes) })
        } else {
            None
        }
    }
}

/// Packs eight hash bytes into a word.
fn pack(bytes: &[u8]) -> (word: u64)
    requires
        bytes@.len() == 8,
    ensures
        word == word_of_bytes(bytes@),
{
    (bytes[0] as u64) | (bytes[1] as u64) << 8 | (bytes[2] as u64) << 16 | (bytes[3] as u64) << 24
        | (bytes[4] as u64) << 32 | (bytes[5] as u64) << 40 | (bytes[6] as u64) << 48 | (
    bytes[7] as u64) << 56
}

/// Bit `i` of `word`, counted from the least significant end.
pub open spec fn bit_at(word: u64, i: nat) -> bool {
    (word >> (i as u64)) & 1 == 1
}

/// The number of positions below `n` at which `a` and `b` hold different bits.
pub open spec fn differing_bits(a: u64, b: u64, n: nat) -> nat
    decreases n,
{
    if n == 0 {
        0
    } else {
        let rest = differing_bits(a, b, (n - 1) as nat);
        if bit_at(a, (n - 1) as nat) != bit_at(b, (n - 1) as nat) {
            rest + 1
        } else {
            rest
        }
    }
}

/// The Hamming distance of two fingerprints: the number of bit positions
/// at which they differ.
pub open spec fn hamming(a: Fingerprint, b: Fingerprint) -> nat {
    differing_bits(a.bits, b.bits, 64)
}

/// The Hamming distance between `a` and `b`.
pub fn distance(a: &Fingerprint, b: &Fingerprint) -> (d: u32)
    ensures
        d == hamming(*a, *b),
        d <= FINGERPRINT_BITS,
{
    let x: u64 = a.bits;
    let y: u64 = b.bits;
    let diff: u64 = x ^ y;
    let mut count: u32 = 0;
    let mut i: u32 = 0;
    while i < 64
        invariant
            i <= 64,
            count <= i,
            count == differing_bits(x, y, i as nat),
            diff == x ^ y,
        decreases 64 - i,
    {
        let shift: u64 = i as u64;
        assert(((x ^ y) >> shift) & 1 == 1 <==> (((x >> shift) & 1 == 1) != ((y >> shift) & 1
            == 1))) by (bit_vector)
            requires
                shift < 64,
        ;
        if (diff >> shift) & 1 == 1 {
            count = count + 1;
        }
        i = i + 1;
    }
    count
}

/// The bits of `word` below position `n`.
spec fn low_bits(word: u64, n: nat) -> u64 {
    if n >= 64 {
        word
    } else {
        word & (((1u64 << (n as u64)) - 1) as u64)
    }
}

proof fn lemma_differing_bits_symmetric(a: u64, b: u64, n: nat)
    ensures
        differing_bits(a, b, n) == differing_bits(b, a, n),
    decreases n,
{
    if n > 0 {
        lemma_differing_bits_symmetric(a, b, (n - 1) as nat);
    }
}

proof fn lemma_differing_bits_same(a: u64, n: nat)
    ensures
        differing_bits(a, a, n) == 0,
    decreases n,
{
    if n > 0 {
        lemma_differing_bits_same(a, (n - 1) as nat);
    }
}

proof fn lemma_differing_bits_bounded(a: u64, b: u64, n: nat)
    ensures
        differing_bits(a, b, n) <= n,
    decreases n,
{
    if n > 0 {
        lemma_differing_bits_bounded(a, b, (n - 1) as nat);
    }
}

/// Words that differ at no position below `n` agree on their `n` low bits.
proof fn lemma_no_differing_bits(a: u64, b: u64, n: nat)
    requires
        n <= 64,
        differing_bits(a, b, n) == 0,
    ensures
        low_bits(a, n) == low_bits(b, n),
    decreases n,
{
    if n == 0 {
        assert(a & (((1u64 << 0u64) - 1) as u64) == b & (((1u64 << 0u64) - 1) as u64))
            by (bit_vector);
    } else {
        let m = (n - 1) as u64;
        lemma_no_differing_bits(a, b, (n - 1) as nat);
        assert(bit_at(a, m as nat) == bit_at(b, m as nat));
        if n < 64 {
            assert(a & (((1u64 << ((m + 1) as u64)) - 1) as u64) == b & (((1u64 << ((m + 1) as u64))
                - 1) as u64)) by (bit_vector)
                requires
                    m < 63,
                    a & (((1u64 << m) - 1) as u64) == b & (((1u64 << m) - 1) as u64),
                    ((a >> m) & 1 == 1) == ((b >> m) & 1 == 1),
            ;
        } else {
            assert(a == b) by (bit_vector)
                requires
                    m == 63,
                    a & (((1u64 << m) - 1) as u64) == b & (((1u64 << m) - 1) as u64),
                    ((a >> m) & 1 == 1) == ((b >> m) & 1 == 1),
            ;
        }
    }
}

/// The distance does not depend on the order of its arguments.
pub proof fn lemma_distance_symmetric(a: Fingerprint, b: Fingerprint)
    ensures
        hamming(a, b) == hamming(b, a),
{
    lemma_differing_bits_symmetric(a.bits, b.bits, 64);
}

/// A fingerprint is at distance 0 from itself.
pub proof fn lemma_distance_identity(a: Fingerprint)
    ensures
        hamming(a, a) == 0,
{
    lemma_differing_bits_same(a.bits, 64);
}

/// Only equal fingerprints are at distance 0: under the threshold 0 the
/// matcher reports exactly the images with identical hashes.
pub proof fn lemma_distance_zero_iff_equal(a: Fingerprint, b: Fingerprint)
    ensures
        hamming(a, b) == 0 <==> a == b,
{
    if hamming(a, b) == 0 {
        lemma_no_differing_bits(a.bits, b.bits, 64);
    }
    if a == b {
        lemma_differing_bits_same(a.bits, 64);
    }
}

/// Two fingerprints differ in at most 64 bits.
pub proof fn lemma_distance_bounded(a: Fingerprint, b: Fingerprint)
    ensures
        hamming(a, b) <= 64,
{
    lemma_differing_bits_bounded(a.bits, b.bits, 64);
}

/// The bytes of the hash that the `img_hash` crate's hasher, as configured
/// by default (gradient algorithm, 8 by 8 bits), computes for a luminance
/// image of `side` by `side` pixels.
pub uninterp spec fn gradient_hash(side: int, pixels: Seq<u8>) -> Seq<u8>;

/// The fingerprint of a normalized image.
pub open spec fn fingerprint_of(image: NormalizedView) -> Fingerprint {
    Fingerprint { bits: word_of_bytes(gradient_hash(image.side, image.pixels)) }
}

/// Calls `img_hash::Hasher::hash_image`, on a hasher built from
/// `img_hash::HasherConfig::new()`, for the luminance image of `side` by
/// `side` pixels, and hands out the bytes of the hash.
///
/// The contract claims that the bytes are a function of the image, and that
/// there are eight of them: the default hash size is 8 by 8 bits. The image
/// must have pixels, and one byte for each.
#[verifier::external_body]
fn hash_luma(side: u32, pixels: &Vec<u8>) -> (hash: Vec<u8>)
    requires
        side > 0,
        pixels@.len() == side * side,
    ensures
        hash@ == gradient_hash(side as int, pixels@),
        hash@.len() == 8,
{
    let picture = img_hash::image::GrayImage::from_raw(side, side, pixels.clone()).unwrap();
    let hasher = img_hash::HasherConfig::new().to_hasher();
    hasher.hash_image(&picture).as_bytes().to_vec()
}

/// Computes the fingerprint of a normalized image.
///
/// The fingerprint depends on the image alone: equal images have equal
/// fingerprints, on every call.
pub fn get_image_hash(image: &NormalizedImage) -> (fingerprint: Fingerprint)
    requires
        image.wf(),
    ensures
        fingerprint == fingerprint_of(image@),
{
    let hash = hash_luma(image.side, &image.pixels);
    Fingerprint { bits: pack(hash.as_slice()) }
}

/// A fingerprint together with the path of the image it was computed from.
#[derive(Clone, Debug, PartialEq, Eq)]
pub struct FingerprintRecord {
    pub fingerprint: Fingerprint,
    pub path: String,
}

/// What a `FingerprintRecord` stands for: a fingerprint and the characters
/// of a path.
pub struct RecordView {
    pub fingerprint: Fingerprint,
    pub path: Seq<char>,
}

impl View for FingerprintRecord {
    type V = RecordView;

    open spec fn view(&self) -> RecordView {
        RecordView { fingerprint: self.fingerprint, path: self.path@ }
    }
}

/// The views of a sequence of records, in order.
pub open spec fn records_view(records: Seq<FingerprintRecord>) -> Seq<RecordView> {
    records.map_values(|r: FingerprintRecord| r@)
}

} // verus!
