//! Unpacking fixed-size byte arrays back into strings, three bytes into four
//! characters.

use vstd::prelude::*;
use vstd::utf8::{
    encode_utf8, encode_utf8_decode_utf8, encode_utf8_valid_utf8, is_ascii_chars,
    is_ascii_chars_encode_utf8, valid_utf8,
};

use crate::config::{capacity_of, Config};
use crate::error::Error;
use crate::validate::{all_ascii, config_outcome, validate_with_config};

verus! {

/// The lowercase ASCII byte of a six-bit code; codes outside the alphabet give 0.
pub open spec fn char_of_code(c: u8) -> u8 {
    if c == 13 {
        45
    } else if 16 <= c <= 25 {
        (c + 32) as u8
    } else if 33 <= c <= 58 {
        (c + 64) as u8
    } else if c == 63 {
        95
    } else {
        0
    }
}

/// Byte `j` of `b`, or 0 past its end.
pub open spec fn byte_at(b: Seq<u8>, j: int) -> u8 {
    if 0 <= j < b.len() {
        b[j]
    } else {
        0
    }
}

/// Six-bit code `i` held in `b`: group `i / 4` is bytes `3 * (i / 4)` to
/// `3 * (i / 4) + 2`, read big-endian.
pub open spec fn code_in(b: Seq<u8>, i: int) -> u8 {
    let k = i / 4;
    let x0 = byte_at(b, 3 * k);
    let x1 = byte_at(b, 3 * k + 1);
    let x2 = byte_at(b, 3 * k + 2);
    if i % 4 == 0 {
        x0 >> 2
    } else if i % 4 == 1 {
        ((x0 & 3) << 4) | (x1 >> 4)
    } else if i % 4 == 2 {
        ((x1 & 15) << 2) | (x2 >> 6)
    } else {
        x2 & 63
    }
}

/// The characters of the first `count` codes held in `b`.
pub open spec fn unpacked(b: Seq<u8>, count: nat) -> Seq<u8> {
    Seq::new(count, |i: int| char_of_code(code_in(b, i)))
}

/// The length of `x` without its trailing zero bytes.
pub open spec fn content_len(x: Seq<u8>) -> nat
    decreases x.len(),
{
    if x.len() > 0 && x.last() == 0 {
        content_len(x.drop_last())
    } else {
        x.len()
    }
}

/// The string that `b` holds: all the codes that fit, as lowercase ASCII,
/// without trailing zero bytes.
pub open spec fn decoded(b: Seq<u8>) -> Seq<u8> {
    let x = unpacked(b, capacity_of(b.len() as int) as nat);
    x.subrange(0, content_len(x) as int)
}

/// Bytes read as the characters with those codes.
pub open spec fn ascii_chars(b: Seq<u8>) -> Seq<char> {
    Seq::new(b.len(), |i: int| b[i] as char)
}

proof fn lemma_content_len_bound(x: Seq<u8>)
    ensures
        content_len(x) <= x.len(),
        content_len(x) > 0 ==> x[content_len(x) - 1] != 0,
        forall|j: int| content_len(x) <= j < x.len() ==> x[j] == 0,
    decreases x.len(),
{
    if x.len() > 0 && x.last() == 0 {
        let y = x.drop_last();
        lemma_content_len_bound(y);
        assert forall|j: int| content_len(x) <= j < x.len() implies x[j] == 0 by {
            if j < y.len() {
                assert(x[j] == y[j]);
            }
        }
    }
}

/// ASCII bytes are valid UTF-8, and they encode the characters with those codes.
proof fn lemma_ascii_utf8(b: Seq<u8>)
    requires
        all_ascii(b),
    ensures
        is_ascii_chars(ascii_chars(b)),
        encode_utf8(ascii_chars(b)) == b,
        valid_utf8(b),
{
    let t = ascii_chars(b);
    assert forall|i: int| 0 <= i < t.len() implies '\0' <= #[trigger] t[i] <= '\u{7f}' by {
        assert(b[i] < 128);
    }
    is_ascii_chars_encode_utf8(t);
    assert forall|i: int| 0 <= i < t.len() implies #[trigger] encode_utf8(t)[i] == b[i] by {
        assert(t[i] as u8 == encode_utf8(t)[i]);
    }
    assert(encode_utf8(t) =~= b);
    encode_utf8_valid_utf8(t);
}

/// Relies on `String::from_utf8`: it succeeds exactly on valid UTF-8, and
/// the `String` it returns is made of those bytes.
#[verifier::external_body]
fn string_from_utf8(bytes: Vec<u8>) -> (r: Option<String>)
    ensures
        r is Some <==> valid_utf8(bytes@),
        r matches Some(s) ==> encode_utf8(s@) == bytes@,
{
    String::from_utf8(bytes).ok()
}

/// The string made of ASCII bytes.
fn ascii_string(bytes: Vec<u8>) -> (r: String)
    requires
        all_ascii(bytes@),
    ensures
        r@ == ascii_chars(bytes@),
{
    let ghost b = bytes@;
    proof {
        lemma_ascii_utf8(b);
    }
    match string_from_utf8(bytes) {
        Some(s) => {
            proof {
                encode_utf8_decode_utf8(s@);
                encode_utf8_decode_utf8(ascii_chars(b));
            }
            s
        },
        None => {
            proof {
                assert(false);
            }
            String::new()
        },
    }
}

const LOOKUP_TABLE: [u8; 64] = [
      0,   0,   0,   0,   0,   0,   0,   0,   0,   0,   0,   0,   0,  45,   0,   0,
     48,  49,  50,  51,  52,  53,  54,  55,  56,  57,   0,   0,   0,   0,   0,   0,
      0,  97,  98,  99, 100, 101, 102, 103, 104, 105, 106, 107, 108, 109, 110, 111,
    112, 113, 114, 115, 116, 117, 118, 119, 120, 121, 122,   0,   0,   0,   0,  95,
];

/// The lowercase ASCII byte of a six-bit code, read from a table.
fn convert(code: u8) -> (r: u8)
    requires
        code < 64,
    ensures
        r == char_of_code(code),
{
    proof {
        assert(LOOKUP_TABLE@ =~= Seq::new(64, |i: int| char_of_code(i as u8)));
    }
    LOOKUP_TABLE[code as usize]
}

/// Decodes a group of three bytes into four characters.
fn decode_chunk_sixbit(x0: u8, x1: u8, x2: u8) -> (r: (u8, u8, u8, u8))
    ensures
        r.0 == char_of_code(x0 >> 2),
        r.1 == char_of_code(((x0 & 3) << 4) | (x1 >> 4)),
        r.2 == char_of_code(((x1 & 15) << 2) | (x2 >> 6)),
        r.3 == char_of_code(x2 & 63),
{
    proof {
        assert(x0 >> 2 < 64 && ((x0 & 3) << 4) | (x1 >> 4) < 64 && ((x1 & 15) << 2) | (x2 >> 6)
            < 64 && x2 & 63 < 64) by (bit_vector);
    }
    (
        convert(x0 >> 2),
        convert(((x0 & 3) << 4) | (x1 >> 4)),
        convert(((x1 & 15) << 2) | (x2 >> 6)),
        convert(x2 & 63),
    )
}

/// Decodes the one or two bytes left after the last whole group into as
/// many characters.
fn decode_remaining_sixbit(x0: u8, x1: u8) -> (r: (u8, u8))
    ensures
        r.0 == char_of_code(x0 >> 2),
        r.1 == char_of_code(((x0 & 3) << 4) | (x1 >> 4)),
{
    proof {
        assert(x0 >> 2 < 64 && ((x0 & 3) << 4) | (x1 >> 4) < 64) by (bit_vector);
    }
    (convert(x0 >> 2), convert(((x0 & 3) << 4) | (x1 >> 4)))
}

/// Unpacks every code of `src` and drops the trailing zero bytes.
fn decode_core<const N: usize, const S: usize>(src: &[u8; N]) -> (r: Vec<u8>)
    requires
        S == capacity_of(N as int),
    ensures
        r@ == decoded(src@),
{
    let ghost b = src@;
    let mut dst = [0u8; S];
    let full_chunks = N / 3;
    let remaining = N % 3;
    proof {
        assert(S == 4 * full_chunks + (if remaining == 0 { 0int } else if remaining == 1 { 1 } else { 2 })) by (
        nonlinear_arith)
            requires
                S == N * 4 / 3,
                N == 3 * full_chunks + remaining,
                0 <= remaining < 3,
        ;
    }
    let mut chunk_idx: usize = 0;
    while chunk_idx < full_chunks
        invariant
            b == src@,
            b.len() == N,
            full_chunks == N / 3,
            remaining == N % 3,
            S == 4 * full_chunks + (if remaining == 0 { 0int } else if remaining == 1 { 1 } else { 2 }),
            chunk_idx <= full_chunks,
            forall|i: int| 0 <= i < 4 * chunk_idx ==> dst@[i] == char_of_code(code_in(b, i)),
        decreases full_chunks - chunk_idx,
    {
        let s = chunk_idx * 3;
        let (c0, c1, c2, c3) = decode_chunk_sixbit(src[s], src[s + 1], src[s + 2]);
        let d = chunk_idx * 4;
        dst[d] = c0;
        dst[d + 1] = c1;
        dst[d + 2] = c2;
        dst[d + 3] = c3;
        proof {
            assert forall|i: int| 0 <= i < 4 * (chunk_idx + 1) implies dst@[i] == char_of_code(
                code_in(b, i),
            ) by {
                if i >= 4 * chunk_idx {
                    assert(i / 4 == chunk_idx);
                }
            }
        }
        chunk_idx = chunk_idx + 1;
    }
    if remaining > 0 {
        let s = full_chunks * 3;
        let d = full_chunks * 4;
        let x1 = if remaining == 2 {
            src[s + 1]
        } else {
            0
        };
        let (c0, c1) = decode_remaining_sixbit(src[s], x1);
        dst[d] = c0;
        if remaining == 2 {
            dst[d + 1] = c1;
        }
    }
    let ghost x = dst@;
    proof {
        assert forall|i: int| 0 <= i < S implies x[i] == char_of_code(code_in(b, i)) by {
            if i >= 4 * full_chunks {
                assert(i / 4 == full_chunks);
            }
        }
        assert(x =~= unpacked(b, S as nat));
        assert(x.subrange(0, S as int) =~= x);
    }
    let mut k: usize = S;
    while k > 0 && dst[k - 1] == 0
        invariant
            x == dst@,
            x.len() == S,
            k <= S,
            content_len(x) == content_len(x.subrange(0, k as int)),
        decreases k,
    {
        proof {
            assert(x.subrange(0, k as int).drop_last() =~= x.subrange(0, k - 1));
        }
        k = k - 1;
    }
    let mut out: Vec<u8> = Vec::new();
    let mut i: usize = 0;
    while i < k
        invariant
            x == dst@,
            k <= x.len(),
            i <= k,
            out@ == x.subrange(0, i as int),
        decreases k - i,
    {
        out.push(dst[i]);
        proof {
            assert(out@ =~= x.subrange(0, i + 1));
        }
        i = i + 1;
    }
    proof {
        assert(content_len(x.subrange(0, k as int)) == k);
    }
    out
}

/// Every byte of a decoded string is ASCII.
proof fn lemma_decoded_ascii(b: Seq<u8>)
    ensures
        all_ascii(decoded(b)),
{
    let x = unpacked(b, capacity_of(b.len() as int) as nat);
    lemma_content_len_bound(x);
    assert forall|i: int| 0 <= i < decoded(b).len() implies #[trigger] decoded(b)[i] < 128 by {
        assert(decoded(b)[i] == x[i]);
    }
}

/// A decoded string is ASCII, and so its own UTF-8 encoding.
pub proof fn lemma_decoded_utf8(b: Seq<u8>)
    ensures
        all_ascii(decoded(b)),
        encode_utf8(ascii_chars(decoded(b))) == decoded(b),
{
    lemma_decoded_ascii(b);
    lemma_ascii_utf8(decoded(b));
}

/// Decodes without validating the recovered string.
pub fn decode_unchecked<const N: usize, const S: usize>(bytes: &[u8; N]) -> (r: String)
    requires
        S == capacity_of(N as int),
    ensures
        r@ == ascii_chars(decoded(bytes@)),
{
    let v = decode_core::<N, S>(bytes);
    proof {
        lemma_decoded_ascii(bytes@);
    }
    ascii_string(v)
}

/// Decodes, then validates the recovered string under `config`, so that
/// corrupted bytes never decode into a string that breaks the rules.
pub fn decode_with_config<const N: usize, const S: usize>(bytes: &[u8; N], config: Config) -> (r:
    Result<String, Error>)
    requires
        S == capacity_of(N as int),
    ensures
        r is Ok <==> config_outcome(decoded(bytes@), config, N as int) is Ok,
        r matches Ok(s) ==> s@ == ascii_chars(decoded(bytes@)),
        r matches Err(e) ==> config_outcome(decoded(bytes@), config, N as int) == Err::<(), Error>(e),
{
    let res = decode_unchecked::<N, S>(bytes);
    proof {
        lemma_decoded_ascii(bytes@);
        lemma_ascii_utf8(decoded(bytes@));
    }
    match validate_with_config::<N>(res.as_str(), config) {
        Ok(()) => Ok(res),
        Err(e) => Err(e),
    }
}

/// Decodes and validates with the default configuration.
pub fn decode<const N: usize, const S: usize>(bytes: &[u8; N]) -> (r: Result<String, Error>)
    requires
        S == capacity_of(N as int),
    ensures
        r is Ok <==> config_outcome(decoded(bytes@), Config::spec_default(), N as int) is Ok,
        r matches Ok(s) ==> s@ == ascii_chars(decoded(bytes@)),
        r matches Err(e) ==> config_outcome(decoded(bytes@), Config::spec_default(), N as int)
            == Err::<(), Error>(e),
{
    decode_with_config::<N, S>(bytes, Config::default())
}

} // verus!
