//! Word-parallel checks of eight bytes at a time: each `u64` word holds eight
//! lanes, lane `k` being bits `8k..8k+8` (the bytes in little-endian order).

use vstd::prelude::*;

use crate::config::Composition;
use crate::validate_char::{composition_allows, is_alnum, HYPHEN, UNDERSCORE};

verus! {

const PAIR_MASK: u64 = 0x000000FF000000FF;

const BIAS: u64 = 0x8000000080000000;

const BYTE_HIGH_BITS: u64 = 0x8080808080808080;

const BYTE_ONES: u64 = 0x0101010101010101;

/// Lane `k` of a word.
pub open spec fn lane(chunk: u64, k: u64) -> u8 {
    ((chunk >> (k * 8)) & 0xff) as u8
}

/// Whether the composition admits every lane of the word.
pub open spec fn chunk_allows(composition: Composition, chunk: u64) -> bool {
    forall|k: u64| k < 8 ==> composition_allows(composition, #[trigger] lane(chunk, k))
}

/// Whether some lane of the word holds the byte.
pub open spec fn chunk_has(chunk: u64, needle: u8) -> bool {
    exists|k: u64| k < 8 && #[trigger] lane(chunk, k) == needle
}

/// Flags, at bit 31 and at bit 63, whether the byte in bits 0..8 and the byte
/// in bits 32..40 of `pair` are alphanumeric. All other bits of `pair` are zero.
fn validate_pair_alnum(pair: u64) -> (r: u64)
    requires
        pair & !PAIR_MASK == 0,
    ensures
        r & !BIAS == 0,
        (r & 0x80000000 != 0) == is_alnum((pair & 0xff) as u8),
        (r & 0x8000000000000000 != 0) == is_alnum(((pair >> 32) & 0xff) as u8),
{
    // Setting bit 5 folds 'A'..'Z' onto 'a'..'z'.
    let lower = pair | 0x0000002000000020;
    // With the bias bit set in each half, no subtraction borrows across halves:
    // the bias bit survives exactly when the half did not go below zero.
    proof {
        assert((lower | BIAS) >= 0x0000006100000061 && (0x0000007A0000007Au64 | BIAS) >= lower
            && (pair | BIAS) >= 0x0000003000000030 && (0x0000003900000039u64 | BIAS) >= pair)
            by (bit_vector)
            requires
                lower == pair | 0x0000002000000020,
                pair & !PAIR_MASK == 0,
        ;
    }
    let l_ge_a = (lower | BIAS) - 0x0000006100000061;
    let l_le_z = (0x0000007A0000007Au64 | BIAS) - lower;
    let letter_ok = (l_ge_a & l_le_z) & BIAS;
    let d_ge_0 = (pair | BIAS) - 0x0000003000000030;
    let d_le_9 = (0x0000003900000039u64 | BIAS) - pair;
    let digit_ok = (d_ge_0 & d_le_9) & BIAS;
    let r = letter_ok | digit_ok;
    proof {
        assert(r & !BIAS == 0 && (r & 0x80000000 != 0) == is_alnum((pair & 0xff) as u8) && (r
            & 0x8000000000000000 != 0) == is_alnum(((pair >> 32) & 0xff) as u8)) by (bit_vector)
            requires
                pair & !PAIR_MASK == 0,
                lower == pair | 0x0000002000000020,
                l_ge_a == (lower | BIAS) - 0x0000006100000061,
                l_le_z == (0x0000007A0000007Au64 | BIAS) - lower,
                letter_ok == (l_ge_a & l_le_z) & BIAS,
                d_ge_0 == (pair | BIAS) - 0x0000003000000030,
                d_le_9 == (0x0000003900000039u64 | BIAS) - pair,
                digit_ok == (d_ge_0 & d_le_9) & BIAS,
                r == letter_ok | digit_ok,
        ;
    }
    r
}

/// Flags, at bit 31 and at bit 63, whether the byte in bits 0..8 and the byte
/// in bits 32..40 of `pair` are hyphens. All other bits of `pair` are zero.
fn pair_is_dash(pair: u64) -> (r: u64)
    requires
        pair & !PAIR_MASK == 0,
    ensures
        r & !BIAS == 0,
        (r & 0x80000000 != 0) == ((pair & 0xff) as u8 == HYPHEN),
        (r & 0x8000000000000000 != 0) == (((pair >> 32) & 0xff) as u8 == HYPHEN),
{
    let dash_xor = pair ^ 0x0000002D0000002D;
    proof {
        assert((dash_xor | BIAS) >= 0x0000000100000001) by (bit_vector);
    }
    let dash_check = (dash_xor | BIAS) - 0x0000000100000001;
    let r = (!dash_check) & BIAS;
    proof {
        assert(r & !BIAS == 0 && (r & 0x80000000 != 0) == ((pair & 0xff) as u8 == 45u8) && (r
            & 0x8000000000000000 != 0) == (((pair >> 32) & 0xff) as u8 == 45u8)) by (bit_vector)
            requires
                pair & !PAIR_MASK == 0,
                dash_xor == pair ^ 0x0000002D0000002D,
                dash_check == (dash_xor | BIAS) - 0x0000000100000001,
                r == (!dash_check) & BIAS,
        ;
    }
    r
}

/// Flags, at bit 31 and at bit 63, whether the byte in bits 0..8 and the byte
/// in bits 32..40 of `pair` are underscores. All other bits of `pair` are zero.
fn pair_is_underscore(pair: u64) -> (r: u64)
    requires
        pair & !PAIR_MASK == 0,
    ensures
        r & !BIAS == 0,
        (r & 0x80000000 != 0) == ((pair & 0xff) as u8 == UNDERSCORE),
        (r & 0x8000000000000000 != 0) == (((pair >> 32) & 0xff) as u8 == UNDERSCORE),
{
    let under_xor = pair ^ 0x0000005F0000005F;
    proof {
        assert((under_xor | BIAS) >= 0x0000000100000001) by (bit_vector);
    }
    let under_check = (under_xor | BIAS) - 0x0000000100000001;
    let r = (!under_check) & BIAS;
    proof {
        assert(r & !BIAS == 0 && (r & 0x80000000 != 0) == ((pair & 0xff) as u8 == 95u8) && (r
            & 0x8000000000000000 != 0) == (((pair >> 32) & 0xff) as u8 == 95u8)) by (bit_vector)
            requires
                pair & !PAIR_MASK == 0,
                under_xor == pair ^ 0x0000005F0000005F,
                under_check == (under_xor | BIAS) - 0x0000000100000001,
                r == (!under_check) & BIAS,
        ;
    }
    r
}

/// The lanes of a word, one by one.
proof fn lemma_lanes_cover(chunk: u64, needle: u8)
    ensures
        chunk_has(chunk, needle) == (lane(chunk, 0) == needle || lane(chunk, 1) == needle || lane(
            chunk,
            2,
        ) == needle || lane(chunk, 3) == needle || lane(chunk, 4) == needle || lane(chunk, 5)
            == needle || lane(chunk, 6) == needle || lane(chunk, 7) == needle),
{
    if chunk_has(chunk, needle) {
        let k = choose|k: u64| k < 8 && #[trigger] lane(chunk, k) == needle;
        assert(k == 0 || k == 1 || k == 2 || k == 3 || k == 4 || k == 5 || k == 6 || k == 7);
    }
}

/// Whether some lane of `chunk` holds `needle`, by the zero-byte test on
/// `chunk` XOR the needle in every lane.
fn has_byte(chunk: u64, needle: u8) -> (r: bool)
    ensures
        r == chunk_has(chunk, needle),
{
    proof {
        assert((needle as u64) * BYTE_ONES <= u64::MAX) by (bit_vector);
    }
    let broadcast = (needle as u64) * BYTE_ONES;
    let x = chunk ^ broadcast;
    let r = ((x.wrapping_sub(BYTE_ONES)) & (!x) & BYTE_HIGH_BITS) != 0;
    proof {
        let w = x.wrapping_sub(BYTE_ONES);
        assert(r == (lane(chunk, 0) == needle || lane(chunk, 1) == needle || lane(chunk, 2)
            == needle || lane(chunk, 3) == needle || lane(chunk, 4) == needle || lane(chunk, 5)
            == needle || lane(chunk, 6) == needle || lane(chunk, 7) == needle)) by (bit_vector)
            requires
                broadcast == (needle as u64) * BYTE_ONES,
                x == chunk ^ broadcast,
                w == x.wrapping_sub(BYTE_ONES),
                r == ((w & (!x) & BYTE_HIGH_BITS) != 0),
        ;
        lemma_lanes_cover(chunk, needle);
    }
    r
}

/// Splits a word into four pairs of lanes: (0, 4), (2, 6), (1, 5) and (3, 7),
/// each pair at bits 0..8 and 32..40.
fn split_pairs(chunk: u64) -> (r: (u64, u64, u64, u64))
    ensures
        r.0 & !PAIR_MASK == 0,
        r.1 & !PAIR_MASK == 0,
        r.2 & !PAIR_MASK == 0,
        r.3 & !PAIR_MASK == 0,
        (r.0 & 0xff) as u8 == lane(chunk, 0),
        ((r.0 >> 32) & 0xff) as u8 == lane(chunk, 4),
        (r.1 & 0xff) as u8 == lane(chunk, 2),
        ((r.1 >> 32) & 0xff) as u8 == lane(chunk, 6),
        (r.2 & 0xff) as u8 == lane(chunk, 1),
        ((r.2 >> 32) & 0xff) as u8 == lane(chunk, 5),
        (r.3 & 0xff) as u8 == lane(chunk, 3),
        ((r.3 >> 32) & 0xff) as u8 == lane(chunk, 7),
{
    let pair1 = chunk & PAIR_MASK;
    let pair2 = (chunk >> 16) & PAIR_MASK;
    let pair3 = (chunk >> 8) & PAIR_MASK;
    let pair4 = (chunk >> 24) & PAIR_MASK;
    proof {
        assert(pair1 & !PAIR_MASK == 0 && pair2 & !PAIR_MASK == 0 && pair3 & !PAIR_MASK == 0
            && pair4 & !PAIR_MASK == 0 && (pair1 & 0xff) as u8 == lane(chunk, 0) && ((pair1 >> 32)
            & 0xff) as u8 == lane(chunk, 4) && (pair2 & 0xff) as u8 == lane(chunk, 2) && ((pair2
            >> 32) & 0xff) as u8 == lane(chunk, 6) && (pair3 & 0xff) as u8 == lane(chunk, 1) && ((
        pair3 >> 32) & 0xff) as u8 == lane(chunk, 5) && (pair4 & 0xff) as u8 == lane(chunk, 3)
            && ((pair4 >> 32) & 0xff) as u8 == lane(chunk, 7)) by (bit_vector)
            requires
                pair1 == chunk & PAIR_MASK,
                pair2 == (chunk >> 16) & PAIR_MASK,
                pair3 == (chunk >> 8) & PAIR_MASK,
                pair4 == (chunk >> 24) & PAIR_MASK,
        ;
    }
    (pair1, pair2, pair3, pair4)
}

/// Four flag words are all set exactly when each of their eight flags is.
proof fn lemma_all_flags(v1: u64, v2: u64, v3: u64, v4: u64)
    requires
        v1 & !BIAS == 0,
        v2 & !BIAS == 0,
        v3 & !BIAS == 0,
        v4 & !BIAS == 0,
    ensures
        ((v1 & v2 & v3 & v4) == BIAS) == (v1 & 0x80000000 != 0 && v1 & 0x8000000000000000 != 0
            && v2 & 0x80000000 != 0 && v2 & 0x8000000000000000 != 0 && v3 & 0x80000000 != 0 && v3
            & 0x8000000000000000 != 0 && v4 & 0x80000000 != 0 && v4 & 0x8000000000000000 != 0),
{
    assert(((v1 & v2 & v3 & v4) == BIAS) == (v1 & 0x80000000 != 0 && v1 & 0x8000000000000000 != 0
        && v2 & 0x80000000 != 0 && v2 & 0x8000000000000000 != 0 && v3 & 0x80000000 != 0 && v3
        & 0x8000000000000000 != 0 && v4 & 0x80000000 != 0 && v4 & 0x8000000000000000 != 0))
        by (bit_vector)
        requires
            v1 & !BIAS == 0,
            v2 & !BIAS == 0,
            v3 & !BIAS == 0,
            v4 & !BIAS == 0,
    ;
}

/// The union of two flag words has a flag set when either has it.
proof fn lemma_or_flags(a: u64, b: u64)
    requires
        a & !BIAS == 0,
        b & !BIAS == 0,
    ensures
        (a | b) & !BIAS == 0,
        ((a | b) & 0x80000000 != 0) == (a & 0x80000000 != 0 || b & 0x80000000 != 0),
        ((a | b) & 0x8000000000000000 != 0) == (a & 0x8000000000000000 != 0 || b
            & 0x8000000000000000 != 0),
{
    assert((a | b) & !BIAS == 0 && ((a | b) & 0x80000000 != 0) == (a & 0x80000000 != 0 || b
        & 0x80000000 != 0) && ((a | b) & 0x8000000000000000 != 0) == (a & 0x8000000000000000 != 0
        || b & 0x8000000000000000 != 0)) by (bit_vector)
        requires
            a & !BIAS == 0,
            b & !BIAS == 0,
    ;
}

/// Whether a pair's flag word marks both of its lanes as admitted.
spec fn pair_flags_match(composition: Composition, v: u64, low: u8, high: u8) -> bool {
    &&& v & !BIAS == 0
    &&& (v & 0x80000000 != 0) == composition_allows(composition, low)
    &&& (v & 0x8000000000000000 != 0) == composition_allows(composition, high)
}

/// The flags of the four pairs decide whether the whole word is admitted.
proof fn lemma_chunk_flags(composition: Composition, chunk: u64, v1: u64, v2: u64, v3: u64, v4: u64)
    requires
        pair_flags_match(composition, v1, lane(chunk, 0), lane(chunk, 4)),
        pair_flags_match(composition, v2, lane(chunk, 2), lane(chunk, 6)),
        pair_flags_match(composition, v3, lane(chunk, 1), lane(chunk, 5)),
        pair_flags_match(composition, v4, lane(chunk, 3), lane(chunk, 7)),
    ensures
        ((v1 & v2 & v3 & v4) == BIAS) == chunk_allows(composition, chunk),
{
    lemma_all_flags(v1, v2, v3, v4);
    if (v1 & v2 & v3 & v4) == BIAS {
        assert forall|k: u64| k < 8 implies composition_allows(
            composition,
            #[trigger] lane(chunk, k),
        ) by {
            assert(k == 0 || k == 1 || k == 2 || k == 3 || k == 4 || k == 5 || k == 6 || k == 7);
        }
    }
    if chunk_allows(composition, chunk) {
        assert(composition_allows(composition, lane(chunk, 0)));
        assert(composition_allows(composition, lane(chunk, 1)));
        assert(composition_allows(composition, lane(chunk, 2)));
        assert(composition_allows(composition, lane(chunk, 3)));
        assert(composition_allows(composition, lane(chunk, 4)));
        assert(composition_allows(composition, lane(chunk, 5)));
        assert(composition_allows(composition, lane(chunk, 6)));
        assert(composition_allows(composition, lane(chunk, 7)));
    }
}

/// Validates an 8-byte word for letters and digits.
/// Returns (is_valid, has_hyphen, has_underscore); no delimiter is looked for.
pub fn validate_chunk_alnum(chunk: u64) -> (r: (bool, bool, bool))
    ensures
        r.0 == chunk_allows(Composition::Alphanumeric, chunk),
        !r.1,
        !r.2,
{
    let (pair1, pair2, pair3, pair4) = split_pairs(chunk);
    let v1 = validate_pair_alnum(pair1);
    let v2 = validate_pair_alnum(pair2);
    let v3 = validate_pair_alnum(pair3);
    let v4 = validate_pair_alnum(pair4);
    proof {
        lemma_chunk_flags(Composition::Alphanumeric, chunk, v1, v2, v3, v4);
    }
    ((v1 & v2 & v3 & v4) == BIAS, false, false)
}

/// Flag word of a pair for letters, digits and hyphens.
fn pair_flags_hyphen(pair: u64) -> (r: u64)
    requires
        pair & !PAIR_MASK == 0,
    ensures
        pair_flags_match(
            Composition::AlphanumericHyphen,
            r,
            (pair & 0xff) as u8,
            ((pair >> 32) & 0xff) as u8,
        ),
{
    let a = validate_pair_alnum(pair);
    let d = pair_is_dash(pair);
    proof {
        lemma_or_flags(a, d);
    }
    a | d
}

/// Flag word of a pair for letters, digits and underscores.
fn pair_flags_underscore(pair: u64) -> (r: u64)
    requires
        pair & !PAIR_MASK == 0,
    ensures
        pair_flags_match(
            Composition::AlphanumericUnderscore,
            r,
            (pair & 0xff) as u8,
            ((pair >> 32) & 0xff) as u8,
        ),
{
    let a = validate_pair_alnum(pair);
    let u = pair_is_underscore(pair);
    proof {
        lemma_or_flags(a, u);
    }
    a | u
}

/// Flag word of a pair for letters, digits, hyphens and underscores.
fn pair_flags_both(pair: u64) -> (r: u64)
    requires
        pair & !PAIR_MASK == 0,
    ensures
        pair_flags_match(
            Composition::AlphanumericHyphenUnderscore,
            r,
            (pair & 0xff) as u8,
            ((pair >> 32) & 0xff) as u8,
        ),
{
    let a = validate_pair_alnum(pair);
    let d = pair_is_dash(pair);
    let u = pair_is_underscore(pair);
    proof {
        lemma_or_flags(a, d);
        lemma_or_flags(a | d, u);
    }
    a | d | u
}

/// Validates an 8-byte word for letters, digits and hyphens.
/// Returns (is_valid, has_hyphen, has_underscore); underscores are not looked for.
pub fn validate_chunk_hyphen(chunk: u64) -> (r: (bool, bool, bool))
    ensures
        r.0 == chunk_allows(Composition::AlphanumericHyphen, chunk),
        r.1 == chunk_has(chunk, HYPHEN),
        !r.2,
{
    let (pair1, pair2, pair3, pair4) = split_pairs(chunk);
    let v1 = pair_flags_hyphen(pair1);
    let v2 = pair_flags_hyphen(pair2);
    let v3 = pair_flags_hyphen(pair3);
    let v4 = pair_flags_hyphen(pair4);
    proof {
        lemma_chunk_flags(Composition::AlphanumericHyphen, chunk, v1, v2, v3, v4);
    }
    ((v1 & v2 & v3 & v4) == BIAS, has_byte(chunk, HYPHEN), false)
}

/// Validates an 8-byte word for letters, digits and underscores.
/// Returns (is_valid, has_hyphen, has_underscore); hyphens are not looked for.
pub fn validate_chunk_underscore(chunk: u64) -> (r: (bool, bool, bool))
    ensures
        r.0 == chunk_allows(Composition::AlphanumericUnderscore, chunk),
        !r.1,
        r.2 == chunk_has(chunk, UNDERSCORE),
{
    let (pair1, pair2, pair3, pair4) = split_pairs(chunk);
    let v1 = pair_flags_underscore(pair1);
    let v2 = pair_flags_underscore(pair2);
    let v3 = pair_flags_underscore(pair3);
    let v4 = pair_flags_underscore(pair4);
    proof {
        lemma_chunk_flags(Composition::AlphanumericUnderscore, chunk, v1, v2, v3, v4);
    }
    ((v1 & v2 & v3 & v4) == BIAS, false, has_byte(chunk, UNDERSCORE))
}

/// Validates an 8-byte word for letters, digits, hyphens and underscores.
/// Returns (is_valid, has_hyphen, has_underscore).
pub fn validate_chunk_both(chunk: u64) -> (r: (bool, bool, bool))
    ensures
        r.0 == chunk_allows(Composition::AlphanumericHyphenUnderscore, chunk),
        r.1 == chunk_has(chunk, HYPHEN),
        r.2 == chunk_has(chunk, UNDERSCORE),
{
    let (pair1, pair2, pair3, pair4) = split_pairs(chunk);
    let v1 = pair_flags_both(pair1);
    let v2 = pair_flags_both(pair2);
    let v3 = pair_flags_both(pair3);
    let v4 = pair_flags_both(pair4);
    proof {
        lemma_chunk_flags(Composition::AlphanumericHyphenUnderscore, chunk, v1, v2, v3, v4);
    }
    ((v1 & v2 & v3 & v4) == BIAS, has_byte(chunk, HYPHEN), has_byte(chunk, UNDERSCORE))
}

} // verus!
