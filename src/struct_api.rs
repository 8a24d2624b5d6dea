//! A fixed-size HexaURL value: `N` packed bytes holding a string of at most
//! `S = floor(N * 4 / 3)` characters. Its bytes serve directly as a sort and
//! hash key.

use vstd::prelude::*;
use vstd::string::StringSliceAdditionalSpecFns;

use crate::config::{capacity_of, Composition, Config};
use crate::decode::{ascii_chars, decode, decode_unchecked, decode_with_config, decoded};
use crate::encode::{
    code_at, encode, encode_quick_checked, encode_unchecked, encode_with_config, encoded,
    pack_first, pack_second, pack_third, packed_byte,
};
use crate::error::Error;
use crate::utils::{is_boundary, len};
use crate::validate::{all_allowed, all_ascii, config_outcome, validate_minimal_config};
use crate::validate_char::composition_allows;

verus! {

/// A wrapper around a fixed-size byte array holding a packed HexaURL.
#[derive(Debug, Clone, Copy, PartialEq, Eq, PartialOrd, Ord, Hash)]
pub struct HexaUrlCore<const N: usize, const S: usize>([u8; N]);

/// 8-byte HexaURL: strings of up to 10 characters.
pub type HexaUrl8 = HexaUrlCore<8, 10>;

/// 16-byte HexaURL: strings of up to 21 characters.
pub type HexaUrl16 = HexaUrlCore<16, 21>;

/// 16-byte HexaURL, the general-purpose size: strings of up to 21 characters.
pub type HexaUrl = HexaUrlCore<16, 21>;

/// 32-byte HexaURL: strings of up to 42 characters.
pub type HexaUrl32 = HexaUrlCore<32, 42>;

/// 64-byte HexaURL: strings of up to 85 characters.
pub type HexaUrl64 = HexaUrlCore<64, 85>;

/// 128-byte HexaURL: strings of up to 170 characters.
pub type HexaUrl128 = HexaUrlCore<128, 170>;

/// 256-byte HexaURL: strings of up to 341 characters.
pub type HexaUrl256 = HexaUrlCore<256, 341>;

impl<const N: usize, const S: usize> View for HexaUrlCore<N, S> {
    type V = Seq<u8>;

    /// The packed bytes.
    closed spec fn view(&self) -> Seq<u8> {
        self.0@
    }
}

/// `n` bytes: the first `count` bytes of `b`, then zeros.
pub open spec fn prefix_padded(b: Seq<u8>, count: int, n: nat) -> Seq<u8> {
    Seq::new(n, |i: int| if i < count { b[i] } else { 0 })
}

impl<const N: usize, const S: usize> HexaUrlCore<N, S> {
    /// Encodes the input string using the default validation rules.
    pub fn new(input: &str) -> (r: Result<Self, Error>)
        requires
            capacity_of(N as int) <= usize::MAX,
        ensures
            r is Ok <==> config_outcome(input.spec_bytes(), Config::spec_default(), N as int) is Ok,
            r matches Ok(h) ==> h@ == encoded(input.spec_bytes(), N as nat),
            r matches Err(e) ==> config_outcome(input.spec_bytes(), Config::spec_default(), N as int)
                == Err::<(), Error>(e),
    {
        match encode::<N>(input) {
            Ok(bytes) => Ok(HexaUrlCore(bytes)),
            Err(e) => Err(e),
        }
    }

    /// Encodes the input string using a custom validation configuration.
    pub fn new_with_config(input: &str, config: Config) -> (r: Result<Self, Error>)
        requires
            capacity_of(N as int) <= usize::MAX,
        ensures
            r is Ok <==> config_outcome(input.spec_bytes(), config, N as int) is Ok,
            r matches Ok(h) ==> h@ == encoded(input.spec_bytes(), N as nat),
            r matches Err(e) ==> config_outcome(input.spec_bytes(), config, N as int) == Err::<
                (),
                Error,
            >(e),
    {
        match encode_with_config::<N>(input, config) {
            Ok(bytes) => Ok(HexaUrlCore(bytes)),
            Err(e) => Err(e),
        }
    }

    /// Encodes the input string under the minimal configuration.
    pub fn new_minimal_config(input: &str) -> (r: Result<Self, Error>)
        requires
            capacity_of(N as int) <= usize::MAX,
        ensures
            r is Ok <==> config_outcome(input.spec_bytes(), Config::spec_minimal(), N as int) is Ok,
            r matches Ok(h) ==> h@ == encoded(input.spec_bytes(), N as nat),
            r matches Err(e) ==> config_outcome(input.spec_bytes(), Config::spec_minimal(), N as int)
                == Err::<(), Error>(e),
    {
        match encode_with_config::<N>(input, Config::minimal()) {
            Ok(bytes) => Ok(HexaUrlCore(bytes)),
            Err(e) => Err(e),
        }
    }

    /// Encodes after the quick check only: the length fits and the input is ASCII.
    pub fn new_quick(input: &str) -> (r: Result<Self, Error>)
        requires
            capacity_of(N as int) <= usize::MAX,
        ensures
            r is Ok <==> input.spec_bytes().len() <= capacity_of(N as int) && all_ascii(
                input.spec_bytes(),
            ),
            r matches Ok(h) ==> h@ == encoded(input.spec_bytes(), N as nat),
            r matches Err(e) ==> e == (if input.spec_bytes().len() > capacity_of(N as int) {
                Error::StringTooLong(capacity_of(N as int) as usize)
            } else {
                Error::InvalidCharacter
            }),
    {
        match encode_quick_checked::<N>(input) {
            Ok(bytes) => Ok(HexaUrlCore(bytes)),
            Err(e) => Err(e),
        }
    }

    /// Encodes without any check; the caller guarantees an ASCII input that fits.
    pub fn new_unchecked(input: &str) -> (r: Self)
        requires
            input.spec_bytes().len() <= capacity_of(N as int),
            all_ascii(input.spec_bytes()),
        ensures
            r@ == encoded(input.spec_bytes(), N as nat),
    {
        HexaUrlCore(encode_unchecked::<N>(input))
    }

    /// Decodes and validates with the default configuration.
    pub fn decode(&self) -> (r: Result<String, Error>)
        requires
            S == capacity_of(N as int),
        ensures
            r is Ok <==> config_outcome(decoded(self@), Config::spec_default(), N as int) is Ok,
            r matches Ok(s) ==> s@ == ascii_chars(decoded(self@)),
            r matches Err(e) ==> config_outcome(decoded(self@), Config::spec_default(), N as int)
                == Err::<(), Error>(e),
    {
        decode::<N, S>(&self.0)
    }

    /// Decodes and validates with a custom configuration.
    pub fn decode_with_config(&self, config: Config) -> (r: Result<String, Error>)
        requires
            S == capacity_of(N as int),
        ensures
            r is Ok <==> config_outcome(decoded(self@), config, N as int) is Ok,
            r matches Ok(s) ==> s@ == ascii_chars(decoded(self@)),
            r matches Err(e) ==> config_outcome(decoded(self@), config, N as int) == Err::<
                (),
                Error,
            >(e),
    {
        decode_with_config::<N, S>(&self.0, config)
    }

    /// Decodes without validating the recovered string.
    pub fn decode_unchecked(&self) -> (r: String)
        requires
            S == capacity_of(N as int),
        ensures
            r@ == ascii_chars(decoded(self@)),
    {
        decode_unchecked::<N, S>(&self.0)
    }

    /// The decoded string, as the value displays.
    pub fn to_string(&self) -> (r: String)
        requires
            S == capacity_of(N as int),
        ensures
            r@ == ascii_chars(decoded(self@)),
    {
        decode_unchecked::<N, S>(&self.0)
    }

    /// Returns a reference to the underlying byte array.
    pub fn as_bytes(&self) -> (r: &[u8; N])
        ensures
            r@ == self@,
    {
        &self.0
    }

    /// Accepts bytes whose decoded string passes the minimal configuration.
    pub fn try_from_bytes(bytes: &[u8; N]) -> (r: Result<Self, Error>)
        requires
            S == capacity_of(N as int),
        ensures
            r is Ok <==> config_outcome(decoded(bytes@), Config::spec_minimal(), N as int) is Ok,
            r matches Ok(h) ==> h@ == bytes@,
            r matches Err(e) ==> config_outcome(decoded(bytes@), Config::spec_minimal(), N as int)
                == Err::<(), Error>(e),
    {
        let s = decode_unchecked::<N, S>(bytes);
        proof {
            crate::decode::lemma_decoded_utf8(bytes@);
        }
        match validate_minimal_config::<N>(s.as_str()) {
            Ok(()) => Ok(HexaUrlCore(*bytes)),
            Err(e) => Err(e),
        }
    }

    /// Takes the bytes as they are, without any check.
    pub fn from_slice(bytes: &[u8; N]) -> (r: Self)
        ensures
            r@ == bytes@,
    {
        HexaUrlCore(*bytes)
    }

    /// Returns the maximum length of the string held.
    pub fn capacity() -> (r: usize)
        ensures
            r == S,
    {
        S
    }

    /// Where the packed content ends.
    fn byte_len(&self) -> (r: usize)
        ensures
            is_boundary(self@, r as int),
            crate::utils::zero_terminated(self@) ==> (forall|i: int| 0 <= i < r ==> self@[i] != 0),
            crate::utils::zero_terminated(self@) ==> (forall|i: int| r <= i < N ==> self@[i] == 0),
    {
        len(&self.0)
    }

    /// Returns true if the string held is empty.
    pub fn is_empty(&self) -> (r: bool)
        requires
            N > 0,
        ensures
            r == (self@[0] == 0),
    {
        self.0[0] == 0
    }

    /// Converts to another size, keeping the packed content as far as it
    /// fits: characters past the new capacity are dropped.
    pub fn resize<const M: usize, const T: usize>(&self) -> (r: HexaUrlCore<M, T>)
        ensures
            exists|b: int|
                is_boundary(self@, b) && r@ == prefix_padded(
                    self@,
                    if b < M {
                        b
                    } else {
                        M as int
                    },
                    M as nat,
                ),
            crate::utils::zero_terminated(self@) ==> r@ == prefix_padded(
                self@,
                if N < M {
                    N as int
                } else {
                    M as int
                },
                M as nat,
            ),
    {
        let byte_len = self.byte_len();
        let r = self.resize_core(byte_len);
        proof {
            if crate::utils::zero_terminated(self@) {
                let count: int = if N < M {
                    N as int
                } else {
                    M as int
                };
                let kept: int = if byte_len < M {
                    byte_len as int
                } else {
                    M as int
                };
                assert forall|i: int| 0 <= i < M implies #[trigger] r@[i] == prefix_padded(
                    self@,
                    count,
                    M as nat,
                )[i] by {
                    if kept <= i < count {
                        assert(self@[i] == 0);
                    }
                }
                assert(r@ =~= prefix_padded(self@, count, M as nat));
            }
        }
        r
    }

    /// Converts to another size when the packed content fits whole.
    pub fn reallocate<const M: usize, const T: usize>(&self) -> (r: Option<HexaUrlCore<M, T>>)
        ensures
            exists|b: int| is_boundary(self@, b) && (if b < M {
                r matches Some(h) && h@ == prefix_padded(self@, b, M as nat)
            } else {
                r is None
            }),
    {
        let byte_len = self.byte_len();
        if byte_len < M {
            Some(self.resize_core(byte_len))
        } else {
            None
        }
    }

    fn resize_core<const M: usize, const T: usize>(&self, byte_len: usize) -> (r: HexaUrlCore<M, T>)
        requires
            byte_len <= N,
        ensures
            r@ == prefix_padded(self@, if byte_len < M { byte_len as int } else { M as int }, M as nat),
    {
        let length = if byte_len < M {
            byte_len
        } else {
            M
        };
        let mut arr = [0u8; M];
        let mut i: usize = 0;
        while i < length
            invariant
                length <= M,
                length <= N,
                i <= length,
                forall|j: int| 0 <= j < i ==> arr@[j] == self.0@[j],
                forall|j: int| i <= j < M ==> arr@[j] == 0,
            decreases length - i,
        {
            arr[i] = self.0[i];
            i = i + 1;
        }
        proof {
            assert(arr@ =~= prefix_padded(self@, length as int, M as nat));
        }
        HexaUrlCore(arr)
    }
}

/// How many bytes the packed form of an alphabet string `t` fills before its
/// zero padding; a partial last group may end in a zero byte.
spec fn packed_content_len(t: Seq<u8>) -> int {
    let f = t.len() as int / 4;
    if t.len() % 4 == 0 {
        3 * f
    } else if t.len() % 4 == 1 {
        3 * f + 1
    } else if t.len() % 4 == 2 {
        if code_at(t, 4 * f + 1) & 15 == 0 {
            3 * f + 1
        } else {
            3 * f + 2
        }
    } else {
        if code_at(t, 4 * f + 2) & 3 == 0 {
            3 * f + 2
        } else {
            3 * f + 3
        }
    }
}

/// The string length read off the content length in bytes and the last
/// content byte, as [`HexaUrlCore::len`] computes it.
spec fn len_from_bytes(byte_len: int, last_byte: u8) -> int {
    let base = byte_len / 3 * 4;
    if byte_len == 0 {
        0
    } else if byte_len % 3 == 0 {
        if last_byte & 63 == 0 {
            base - 1
        } else {
            base
        }
    } else if byte_len % 3 == 1 {
        if last_byte & 3 == 0 {
            base + 1
        } else {
            base + 2
        }
    } else {
        if last_byte & 15 == 0 {
            base + 2
        } else {
            base + 3
        }
    }
}

proof fn lemma_pack_bits()
    ensures
        forall|a: u8, x: u8| 1 <= a < 64 ==> #[trigger] pack_first(a, x) != 0,
        forall|x: u8, c: u8| 13 <= c < 64 ==> #[trigger] pack_second(x, c) != 0,
        forall|x: u8, d: u8| 1 <= d < 64 ==> #[trigger] pack_third(x, d) != 0 && pack_third(x, d) & 63 == d,
        forall|a: u8| a < 64 ==> #[trigger] pack_first(a, 0) & 3 == 0,
        forall|a: u8, b: u8| 13 <= b < 64 && b & 15 == 0 ==> #[trigger] pack_first(a, b) & 3 != 0,
        forall|b: u8| #[trigger] pack_second(b, 0) & 15 == 0 && (pack_second(b, 0) == 0 <==> b & 15 == 0),
        forall|b: u8, c: u8| 13 <= c < 64 && c & 3 == 0 ==> #[trigger] pack_second(b, c) & 15 != 0,
        forall|c: u8| #[trigger] pack_third(c, 0) & 63 == 0 && (pack_third(c, 0) == 0 <==> c & 3 == 0),
        pack_first(0, 0) == 0 && pack_second(0, 0) == 0 && pack_third(0, 0) == 0,
{
    assert forall|a: u8, x: u8| 1 <= a < 64 implies #[trigger] pack_first(a, x) != 0 by {
        assert(1 <= a < 64 ==> (a << 2) | (x >> 4) != 0) by (bit_vector);
    }
    assert forall|x: u8, c: u8| 13 <= c < 64 implies #[trigger] pack_second(x, c) != 0 by {
        assert(13 <= c < 64 ==> ((x & 15) << 4) | (c >> 2) != 0) by (bit_vector);
    }
    assert forall|x: u8, d: u8| 1 <= d < 64 implies #[trigger] pack_third(x, d) != 0 && pack_third(x, d) & 63 == d by {
        assert(1 <= d < 64 ==> ((x & 3) << 6) | d != 0 && (((x & 3) << 6) | d) & 63 == d) by (bit_vector);
    }
    assert forall|a: u8| a < 64 implies #[trigger] pack_first(a, 0) & 3 == 0 by {
        assert(((a << 2) | (0u8 >> 4)) & 3 == 0) by (bit_vector);
    }
    assert forall|a: u8, b: u8| 13 <= b < 64 && b & 15 == 0 implies #[trigger] pack_first(a, b) & 3 != 0 by {
        assert(13 <= b < 64 && b & 15 == 0 ==> ((a << 2) | (b >> 4)) & 3 != 0) by (bit_vector);
    }
    assert forall|b: u8| #[trigger] pack_second(b, 0) & 15 == 0 && (pack_second(b, 0) == 0 <==> b & 15 == 0) by {
        assert((((b & 15) << 4) | (0u8 >> 2)) & 15 == 0 && (((b & 15) << 4) | (0u8 >> 2) == 0 <==> b & 15 == 0)) by (bit_vector);
    }
    assert forall|b: u8, c: u8| 13 <= c < 64 && c & 3 == 0 implies #[trigger] pack_second(b, c) & 15 != 0 by {
        assert(13 <= c < 64 && c & 3 == 0 ==> (((b & 15) << 4) | (c >> 2)) & 15 != 0) by (bit_vector);
    }
    assert forall|c: u8| #[trigger] pack_third(c, 0) & 63 == 0 && (pack_third(c, 0) == 0 <==> c & 3 == 0) by {
        assert((((c & 3) << 6) | 0u8) & 63 == 0 && (((c & 3) << 6) | 0u8 == 0 <==> c & 3 == 0)) by (bit_vector);
    }
    assert(pack_first(0, 0) == 0 && pack_second(0, 0) == 0 && pack_third(0, 0) == 0) by (bit_vector);
}

/// The packed form of an alphabet string is nonzero up to its content length
/// and zero after it, and its last content byte tells the string length.
proof fn lemma_packed_shape(t: Seq<u8>, n: nat)
    requires
        all_allowed(Composition::AlphanumericHyphenUnderscore, t),
        t.len() <= capacity_of(n as int),
    ensures
        packed_content_len(t) <= n,
        forall|j: int| 0 <= j < packed_content_len(t) ==> encoded(t, n)[j] != 0,
        forall|j: int| packed_content_len(t) <= j < n ==> encoded(t, n)[j] == 0,
        packed_content_len(t) > 0 ==> len_from_bytes(
            packed_content_len(t),
            encoded(t, n)[packed_content_len(t) - 1],
        ) == t.len(),
{
    lemma_pack_bits();
    let len = t.len() as int;
    let f = len / 4;
    let b = packed_content_len(t);
    assert forall|i: int| 0 <= i < len implies 13 <= #[trigger] code_at(t, i) < 64 by {
        assert(composition_allows(Composition::AlphanumericHyphenUnderscore, t[i]));
    }
    assert(3 * len <= 4 * n);
    assert(b <= n) by (nonlinear_arith)
        requires
            3 * len <= 4 * n,
            f == len / 4,
            3 * f <= b <= 3 * f + 3,
            len % 4 == 0 ==> b == 3 * f,
            len % 4 == 1 ==> b == 3 * f + 1,
            len % 4 == 2 ==> b <= 3 * f + 2,
    ;
    let ca = code_at(t, 4 * f);
    let cb = code_at(t, 4 * f + 1);
    let cc = code_at(t, 4 * f + 2);
    let rem = len % 4;
    assert(len == 4 * f + rem);
    assert forall|j: int| 0 <= j < n implies (encoded(t, n)[j] != 0 <==> j < b) by {
        let k = j / 3;
        assert(encoded(t, n)[j] == packed_byte(t, j));
        assert(j == 3 * k + j % 3);
        if k < f {
            assert(4 * k + 3 < len);
            assert(13 <= code_at(t, 4 * k));
            assert(13 <= code_at(t, 4 * k + 2));
            assert(13 <= code_at(t, 4 * k + 3));
        } else if k > f {
            assert(4 * k >= len);
            assert(code_at(t, 4 * k) == 0 && code_at(t, 4 * k + 1) == 0 && code_at(t, 4 * k + 2)
                == 0 && code_at(t, 4 * k + 3) == 0);
        } else {
            assert(code_at(t, 4 * f + 3) == 0);
            if rem == 0 {
                assert(ca == 0 && cb == 0 && cc == 0);
            } else if rem == 1 {
                assert(13 <= ca && cb == 0 && cc == 0);
            } else if rem == 2 {
                assert(13 <= ca && 13 <= cb && cc == 0);
            } else {
                assert(13 <= ca && 13 <= cb && 13 <= cc);
            }
        }
    }
    if b > 0 {
        let last = encoded(t, n)[b - 1];
        assert(last == packed_byte(t, b - 1));
        if rem == 0 {
            assert(b - 1 == 3 * (f - 1) + 2);
            assert((b - 1) / 3 == f - 1 && (b - 1) % 3 == 2);
            assert(b / 3 == f && b % 3 == 0);
            assert(13 <= code_at(t, 4 * (f - 1) + 3));
        } else if rem == 1 {
            assert((b - 1) / 3 == f && (b - 1) % 3 == 0);
            assert(b / 3 == f && b % 3 == 1);
            assert(13 <= ca && cb == 0);
        } else if rem == 2 {
            assert(13 <= ca && 13 <= cb && cc == 0);
            if cb & 15 == 0 {
                assert((b - 1) / 3 == f && (b - 1) % 3 == 0);
                assert(b / 3 == f && b % 3 == 1);
            } else {
                assert((b - 1) / 3 == f && (b - 1) % 3 == 1);
                assert(b / 3 == f && b % 3 == 2);
            }
        } else {
            assert(13 <= ca && 13 <= cb && 13 <= cc && code_at(t, 4 * f + 3) == 0);
            if cc & 3 == 0 {
                assert((b - 1) / 3 == f && (b - 1) % 3 == 1);
                assert(b / 3 == f && b % 3 == 2);
            } else {
                assert((b - 1) / 3 == f && (b - 1) % 3 == 2);
                assert(b / 3 == f + 1 && b % 3 == 0);
            }
        }
    }
}

/// The packed form of an alphabet string that fits is self-terminating: no
/// nonzero byte follows a zero byte, so its zero padding marks its end.
pub proof fn lemma_encoded_zero_terminated(t: Seq<u8>, n: nat)
    requires
        all_allowed(Composition::AlphanumericHyphenUnderscore, t),
        t.len() <= capacity_of(n as int),
    ensures
        crate::utils::zero_terminated(encoded(t, n)),
{
    lemma_packed_shape(t, n);
}

impl<const N: usize, const S: usize> HexaUrlCore<N, S> {
    /// Returns the length of the string held: on a value made by encoding an
    /// alphabet string, the length of that string.
    ///
    /// O(log N)
    pub fn len(&self) -> (r: usize)
        requires
            S == capacity_of(N as int),
        ensures
            r <= S,
            forall|t: Seq<u8>|
                all_allowed(Composition::AlphanumericHyphenUnderscore, t) && t.len() <= S && self@
                    == #[trigger] encoded(t, N as nat) ==> r == t.len(),
    {
        let byte_len = self.byte_len();
        if byte_len == 0 {
            proof {
                assert forall|t: Seq<u8>|
                    all_allowed(Composition::AlphanumericHyphenUnderscore, t) && t.len() <= S && self@
                        == #[trigger] encoded(t, N as nat) implies 0 == t.len() by {
                    lemma_packed_shape(t, N as nat);
                    let b = packed_content_len(t);
                    if b > 0 {
                        assert(self@[0] != 0);
                    }
                    assert(b == 0 ==> t.len() == 0);
                }
            }
            return 0;
        }
        // Base length from the whole 3-byte groups.
        let base_len = byte_len / 3 * 4;
        // The bits of the last content byte tell how the last group ends.
        let remainder = byte_len % 3;
        let last_byte = self.0[byte_len - 1];
        let len = if remainder == 0 {
            if (last_byte & 63) == 0 {
                base_len - 1
            } else {
                base_len
            }
        } else if remainder == 1 {
            if (last_byte & 3) == 0 {
                base_len + 1
            } else {
                base_len + 2
            }
        } else {
            if (last_byte & 15) == 0 {
                base_len + 2
            } else {
                base_len + 3
            }
        };
        proof {
            assert(len == len_from_bytes(byte_len as int, last_byte));
            assert forall|t: Seq<u8>|
                all_allowed(Composition::AlphanumericHyphenUnderscore, t) && t.len() <= S && self@
                    == #[trigger] encoded(t, N as nat) implies len == t.len() by {
                lemma_packed_shape(t, N as nat);
                let b = packed_content_len(t);
                if byte_len < b {
                    assert(self@[byte_len as int] != 0);
                } else if byte_len > b {
                    assert(self@[byte_len - 1] == 0);
                }
            }
        }
        if len > S {
            S
        } else {
            len
        }
    }
}

/// Whether `S` is the capacity of `N` bytes, computed without overflow.
fn sizes_match<const N: usize, const S: usize>() -> (r: bool)
    ensures
        r == (S == capacity_of(N as int)),
{
    proof {
        assert(capacity_of(N as int) == 4 * (N as int / 3) + (N as int % 3) * 4 / 3) by (
        nonlinear_arith);
    }
    S / 4 == N / 3 && S % 4 == N % 3 * 4 / 3
}

impl<const N: usize, const S: usize> TryFrom<&[u8]> for HexaUrlCore<N, S> {
    type Error = Error;

    /// Accepts a slice of exactly `N` bytes that [`HexaUrlCore::try_from_bytes`] accepts.
    fn try_from(value: &[u8]) -> (r: Result<Self, Error>) {
        if value.len() != N || !sizes_match::<N, S>() {
            return Err(Error::InvalidLength);
        }
        let mut bytes = [0u8; N];
        let mut i: usize = 0;
        while i < N
            invariant
                value@.len() == N,
                i <= N,
            decreases N - i,
        {
            bytes[i] = value[i];
            i = i + 1;
        }
        Self::try_from_bytes(&bytes)
    }
}

impl<const N: usize, const S: usize> vstd::std_specs::convert::TryFromSpecImpl<&[u8]> for HexaUrlCore<N, S> {
    open spec fn obeys_try_from_spec() -> bool {
        false
    }

    open spec fn try_from_spec(value: &[u8]) -> Result<Self, Error> {
        Err(Error::InvalidLength)
    }
}

impl<const N: usize, const S: usize> TryFrom<[u8; N]> for HexaUrlCore<N, S> {
    type Error = Error;

    /// Accepts the bytes that [`HexaUrlCore::try_from_bytes`] accepts.
    fn try_from(bytes: [u8; N]) -> (r: Result<Self, Error>) {
        if !sizes_match::<N, S>() {
            return Err(Error::InvalidLength);
        }
        Self::try_from_bytes(&bytes)
    }
}

impl<const N: usize, const S: usize> vstd::std_specs::convert::TryFromSpecImpl<[u8; N]> for HexaUrlCore<N, S> {
    open spec fn obeys_try_from_spec() -> bool {
        false
    }

    open spec fn try_from_spec(bytes: [u8; N]) -> Result<Self, Error> {
        Err(Error::InvalidLength)
    }
}

impl<const N: usize, const S: usize> TryFrom<&[u8; N]> for HexaUrlCore<N, S> {
    type Error = Error;

    /// Accepts the bytes that [`HexaUrlCore::try_from_bytes`] accepts.
    fn try_from(bytes: &[u8; N]) -> (r: Result<Self, Error>) {
        if !sizes_match::<N, S>() {
            return Err(Error::InvalidLength);
        }
        Self::try_from_bytes(bytes)
    }
}

impl<const N: usize, const S: usize> vstd::std_specs::convert::TryFromSpecImpl<&[u8; N]> for HexaUrlCore<N, S> {
    open spec fn obeys_try_from_spec() -> bool {
        false
    }

    open spec fn try_from_spec(bytes: &[u8; N]) -> Result<Self, Error> {
        Err(Error::InvalidLength)
    }
}

impl<const N: usize, const S: usize> TryFrom<&String> for HexaUrlCore<N, S> {
    type Error = Error;

    /// Encodes under the minimal configuration.
    fn try_from(value: &String) -> (r: Result<Self, Error>) {
        if !sizes_match::<N, S>() {
            return Err(Error::InvalidLength);
        }
        Self::new_minimal_config(value.as_str())
    }
}

impl<const N: usize, const S: usize> vstd::std_specs::convert::TryFromSpecImpl<&String> for HexaUrlCore<N, S> {
    open spec fn obeys_try_from_spec() -> bool {
        false
    }

    open spec fn try_from_spec(value: &String) -> Result<Self, Error> {
        Err(Error::InvalidLength)
    }
}

impl<const N: usize, const S: usize> TryFrom<String> for HexaUrlCore<N, S> {
    type Error = Error;

    /// Encodes under the minimal configuration.
    fn try_from(value: String) -> (r: Result<Self, Error>) {
        if !sizes_match::<N, S>() {
            return Err(Error::InvalidLength);
        }
        Self::new_minimal_config(value.as_str())
    }
}

impl<const N: usize, const S: usize> vstd::std_specs::convert::TryFromSpecImpl<String> for HexaUrlCore<N, S> {
    open spec fn obeys_try_from_spec() -> bool {
        false
    }

    open spec fn try_from_spec(value: String) -> Result<Self, Error> {
        Err(Error::InvalidLength)
    }
}

impl<const N: usize, const S: usize> AsRef<[u8; N]> for HexaUrlCore<N, S> {
    /// The underlying fixed-size byte array.
    fn as_ref(&self) -> &[u8; N] {
        &self.0
    }
}

impl<const N: usize, const S: usize> AsRef<[u8]> for HexaUrlCore<N, S> {
    /// The underlying bytes as a slice.
    fn as_ref(&self) -> &[u8] {
        self.0.as_slice()
    }
}

} // verus!
