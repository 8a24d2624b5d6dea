//! Packing strings into fixed-size byte arrays, four six-bit codes into
//! three bytes.

use vstd::prelude::*;

use crate::config::{capacity_of, Config};
use crate::error::Error;
use crate::validate::{
    all_allowed, all_ascii, check_encoding_safe, config_outcome, validate, validate_with_config,
};
use crate::validate_char::{composition_allows, HYPHEN, UNDERSCORE};
use vstd::string::StringSliceAdditionalSpecFns;

verus! {

/// The six-bit code of an ASCII byte: hyphen 13, digits 16..25, letters of
/// either case 33..58, underscore 63; every other byte 0.
pub open spec fn sixbit_code(b: u8) -> u8 {
    if b == HYPHEN {
        13
    } else if 48 <= b <= 57 {
        (b - 32) as u8
    } else if 65 <= b <= 90 {
        (b - 32) as u8
    } else if b == UNDERSCORE {
        63
    } else if 97 <= b <= 122 {
        (b - 64) as u8
    } else {
        0
    }
}

const LOOKUP_TABLE: [u8; 128] = [
     0,  0,  0,  0,  0,  0,  0,  0,  0,  0,  0,  0,  0,  0,  0,  0,
     0,  0,  0,  0,  0,  0,  0,  0,  0,  0,  0,  0,  0,  0,  0,  0,
     0,  0,  0,  0,  0,  0,  0,  0,  0,  0,  0,  0,  0, 13,  0,  0,
    16, 17, 18, 19, 20, 21, 22, 23, 24, 25,  0,  0,  0,  0,  0,  0,
     0, 33, 34, 35, 36, 37, 38, 39, 40, 41, 42, 43, 44, 45, 46, 47,
    48, 49, 50, 51, 52, 53, 54, 55, 56, 57, 58,  0,  0,  0,  0, 63,
     0, 33, 34, 35, 36, 37, 38, 39, 40, 41, 42, 43, 44, 45, 46, 47,
    48, 49, 50, 51, 52, 53, 54, 55, 56, 57, 58,  0,  0,  0,  0,  0,
];

/// The six-bit code of an ASCII byte, read from a table.
fn convert(byte: u8) -> (r: u8)
    requires
        byte < 128,
    ensures
        r == sixbit_code(byte),
{
    proof {
        assert(LOOKUP_TABLE@ =~= Seq::new(128, |i: int| sixbit_code(i as u8)));
    }
    LOOKUP_TABLE[byte as usize]
}

/// Lowercase for an ASCII capital letter; every other byte unchanged.
pub open spec fn fold_byte(b: u8) -> u8 {
    if 65 <= b <= 90 {
        (b + 32) as u8
    } else {
        b
    }
}

/// The string with its ASCII capitals made lowercase.
pub open spec fn case_fold(s: Seq<u8>) -> Seq<u8> {
    Seq::new(s.len(), |i: int| fold_byte(s[i]))
}

/// The code of byte `i` of `s`, or 0 past its end.
pub open spec fn code_at(s: Seq<u8>, i: int) -> u8 {
    if 0 <= i < s.len() {
        sixbit_code(s[i])
    } else {
        0
    }
}

/// First byte of a group: all six bits of `a`, then the top two of `b`.
pub open spec fn pack_first(a: u8, b: u8) -> u8 {
    (a << 2) | (b >> 4)
}

/// Second byte of a group: the low four bits of `b`, then the top four of `c`.
pub open spec fn pack_second(b: u8, c: u8) -> u8 {
    ((b & 15) << 4) | (c >> 2)
}

/// Third byte of a group: the low two bits of `c`, then all six bits of `d`.
pub open spec fn pack_third(c: u8, d: u8) -> u8 {
    ((c & 3) << 6) | d
}

/// Byte `j` of the packed form of `s`: group `j / 3` holds the codes of
/// bytes `4 * (j / 3)` to `4 * (j / 3) + 3`, big-endian, codes past the end
/// of `s` being 0.
pub open spec fn packed_byte(s: Seq<u8>, j: int) -> u8 {
    let k = j / 3;
    if j % 3 == 0 {
        pack_first(code_at(s, 4 * k), code_at(s, 4 * k + 1))
    } else if j % 3 == 1 {
        pack_second(code_at(s, 4 * k + 1), code_at(s, 4 * k + 2))
    } else {
        pack_third(code_at(s, 4 * k + 2), code_at(s, 4 * k + 3))
    }
}

/// The `n`-byte packed form of `s`.
pub open spec fn encoded(s: Seq<u8>, n: nat) -> Seq<u8> {
    Seq::new(n, |j: int| packed_byte(s, j))
}

proof fn lemma_pack_zero()
    ensures
        pack_first(0, 0) == 0,
        pack_second(0, 0) == 0,
        pack_third(0, 0) == 0,
        forall|b: u8| #[trigger] pack_second(b, 0) == (b & 15) << 4,
        forall|c: u8| #[trigger] pack_third(c, 0) == (c & 3) << 6,
{
    assert(pack_first(0, 0) == 0 && pack_second(0, 0) == 0 && pack_third(0, 0) == 0)
        by (bit_vector);
    assert forall|b: u8| #[trigger] pack_second(b, 0) == (b & 15) << 4 by {
        assert(((b & 15) << 4) | (0u8 >> 2) == (b & 15) << 4) by (bit_vector);
    }
    assert forall|c: u8| #[trigger] pack_third(c, 0) == (c & 3) << 6 by {
        assert(((c & 3) << 6) | 0u8 == (c & 3) << 6) by (bit_vector);
    }
}

/// Packs `input` into `N` bytes, four characters into three bytes, leaving
/// the bytes past the content zero.
fn encode_core<const N: usize>(input: &[u8]) -> (r: [u8; N])
    requires
        input@.len() <= capacity_of(N as int),
        all_ascii(input@),
    ensures
        r@ == encoded(input@, N as nat),
{
    let ghost s = input@;
    let len = input.len();
    let mut bytes = [0u8; N];
    let full_chunks = len / 4;
    let remaining = len % 4;
    proof {
        lemma_pack_zero();
        assert(3 * full_chunks + remaining - (if remaining > 0 { 1int } else { 0 }) <= N) by (
        nonlinear_arith)
            requires
                len == 4 * full_chunks + remaining,
                0 <= remaining < 4,
                3 * len <= 4 * N,
        ;
    }
    let mut chunk_idx: usize = 0;
    while chunk_idx < full_chunks
        invariant
            s == input@,
            len == s.len(),
            full_chunks == len / 4,
            3 * full_chunks <= N,
            chunk_idx <= full_chunks,
            all_ascii(s),
            forall|j: int| 0 <= j < 3 * chunk_idx ==> bytes@[j] == packed_byte(s, j),
            forall|j: int| 3 * chunk_idx <= j < N ==> bytes@[j] == 0,
        decreases full_chunks - chunk_idx,
    {
        let start = chunk_idx * 4;
        let a = convert(input[start]);
        let b = convert(input[start + 1]);
        let c = convert(input[start + 2]);
        let d = convert(input[start + 3]);
        let byte_idx = chunk_idx * 3;
        bytes[byte_idx] = (a << 2) | (b >> 4);
        bytes[byte_idx + 1] = ((b & 15) << 4) | (c >> 2);
        bytes[byte_idx + 2] = ((c & 3) << 6) | d;
        proof {
            assert forall|j: int| 0 <= j < 3 * (chunk_idx + 1) implies bytes@[j] == packed_byte(
                s,
                j,
            ) by {
                if j >= 3 * chunk_idx {
                    assert(j / 3 == chunk_idx);
                }
            }
        }
        chunk_idx = chunk_idx + 1;
    }
    if remaining > 0 {
        let start = full_chunks * 4;
        let byte_idx = full_chunks * 3;
        if remaining == 3 {
            let a = convert(input[start]);
            let b = convert(input[start + 1]);
            let c = convert(input[start + 2]);
            bytes[byte_idx] = (a << 2) | (b >> 4);
            bytes[byte_idx + 1] = ((b & 15) << 4) | (c >> 2);
            bytes[byte_idx + 2] = (c & 3) << 6;
        } else if remaining == 2 {
            let a = convert(input[start]);
            let b = convert(input[start + 1]);
            bytes[byte_idx] = (a << 2) | (b >> 4);
            bytes[byte_idx + 1] = (b & 15) << 4;
        } else {
            let a = convert(input[start]);
            bytes[byte_idx] = a << 2;
            proof {
                assert(pack_first(a, 0) == a << 2) by (bit_vector);
            }
        }
    }
    proof {
        assert forall|j: int| 0 <= j < N implies bytes@[j] == packed_byte(s, j) by {
            if j >= 3 * full_chunks {
                let k = j / 3;
                assert(4 * k + 4 > len ==> code_at(s, 4 * k + 3) == 0);
                if j >= 3 * full_chunks + 3 {
                    assert(k > full_chunks);
                } else {
                    assert(k == full_chunks);
                }
            }
        }
        assert(bytes@ =~= encoded(s, N as nat));
    }
    bytes
}

/// Every byte that a composition admits is ASCII.
proof fn lemma_allowed_is_ascii(composition: crate::config::Composition, s: Seq<u8>)
    requires
        all_allowed(composition, s),
    ensures
        all_ascii(s),
{
    assert forall|i: int| 0 <= i < s.len() implies #[trigger] s[i] < 128 by {
        assert(composition_allows(composition, s[i]));
    }
}

/// Encodes the input string using a custom validation configuration.
///
/// Succeeds exactly when the input validates under `config` for the byte
/// size `N`, and then returns its packed form; otherwise returns the
/// validation error.
pub fn encode_with_config<const N: usize>(input: &str, config: Config) -> (r: Result<[u8; N], Error>)
    requires
        capacity_of(N as int) <= usize::MAX,
    ensures
        r is Ok <==> config_outcome(input.spec_bytes(), config, N as int) is Ok,
        r matches Ok(bytes) ==> bytes@ == encoded(input.spec_bytes(), N as nat),
        r matches Err(e) ==> config_outcome(input.spec_bytes(), config, N as int) == Err::<(), Error>(e),
{
    match validate_with_config::<N>(input, config) {
        Ok(()) => {
            proof {
                lemma_allowed_is_ascii(config.composition, input.spec_bytes());
            }
            Ok(encode_core(input.as_bytes()))
        },
        Err(e) => Err(e),
    }
}

/// Encodes the input string using the default validation rules.
pub fn encode<const N: usize>(input: &str) -> (r: Result<[u8; N], Error>)
    requires
        capacity_of(N as int) <= usize::MAX,
    ensures
        r is Ok <==> config_outcome(input.spec_bytes(), Config::spec_default(), N as int) is Ok,
        r matches Ok(bytes) ==> bytes@ == encoded(input.spec_bytes(), N as nat),
        r matches Err(e) ==> config_outcome(input.spec_bytes(), Config::spec_default(), N as int)
            == Err::<(), Error>(e),
{
    match validate::<N>(input) {
        Ok(()) => {
            proof {
                lemma_allowed_is_ascii(Config::spec_default().composition, input.spec_bytes());
            }
            Ok(encode_core(input.as_bytes()))
        },
        Err(e) => Err(e),
    }
}

/// Encodes after the quick check only: the length fits and the input is
/// ASCII. ASCII bytes outside the alphabet get the code 0.
pub fn encode_quick_checked<const N: usize>(input: &str) -> (r: Result<[u8; N], Error>)
    requires
        capacity_of(N as int) <= usize::MAX,
    ensures
        r is Ok <==> input.spec_bytes().len() <= capacity_of(N as int) && all_ascii(
            input.spec_bytes(),
        ),
        r matches Err(e) ==> e == (if input.spec_bytes().len() > capacity_of(N as int) {
            Error::StringTooLong(capacity_of(N as int) as usize)
        } else {
            Error::InvalidCharacter
        }),
        r matches Ok(bytes) ==> bytes@ == encoded(input.spec_bytes(), N as nat),
{
    match check_encoding_safe::<N>(input) {
        Ok(()) => Ok(encode_core(input.as_bytes())),
        Err(e) => Err(e),
    }
}

/// Encodes without any check; the caller guarantees that the input is ASCII
/// and fits the byte size `N`.
pub fn encode_unchecked<const N: usize>(input: &str) -> (r: [u8; N])
    requires
        input.spec_bytes().len() <= capacity_of(N as int),
        all_ascii(input.spec_bytes()),
    ensures
        r@ == encoded(input.spec_bytes(), N as nat),
{
    encode_core(input.as_bytes())
}

} // verus!
