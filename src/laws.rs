//! Laws that tie the codec and the validator together.

use vstd::prelude::*;

use crate::config::{capacity_of, rules_or_default, Composition, Config, DelimiterRules};
use crate::decode::{byte_at, code_in, content_len, decoded, unpacked};
use crate::encode::{
    case_fold, code_at, encoded, fold_byte, pack_first, pack_second, pack_third, packed_byte,
    sixbit_code,
};
use crate::error::Error;
use crate::validate::{
    all_allowed, config_outcome, delimiter_outcome, edge_violation, first_pair_violation,
    pair_violation,
};
use crate::validate_char::{composition_allows, UNDERSCORE};

verus! {

/// Unpacking a group of four codes from its three packed bytes gives the codes back.
proof fn lemma_unpack_pack(a: u8, b: u8, c: u8, d: u8)
    requires
        a < 64,
        b < 64,
        c < 64,
        d < 64,
    ensures
        pack_first(a, b) >> 2 == a,
        ((pack_first(a, b) & 3) << 4) | (pack_second(b, c) >> 4) == b,
        ((pack_second(b, c) & 15) << 2) | (pack_third(c, d) >> 6) == c,
        pack_third(c, d) & 63 == d,
{
    assert(((a << 2) | (b >> 4)) >> 2 == a && ((((a << 2) | (b >> 4)) & 3) << 4) | ((((b & 15)
        << 4) | (c >> 2)) >> 4) == b && (((((b & 15) << 4) | (c >> 2)) & 15) << 2) | ((((c & 3)
        << 6) | d) >> 6) == c && (((c & 3) << 6) | d) & 63 == d) by (bit_vector)
        requires
            a < 64,
            b < 64,
            c < 64,
            d < 64,
    ;
}

proof fn lemma_code_below_64(s: Seq<u8>, i: int)
    ensures
        code_at(s, i) < 64,
{
}

/// Each code that fits in `n` bytes is read back from the packed form.
proof fn lemma_code_in_encoded(s: Seq<u8>, n: nat, i: int)
    requires
        0 <= i < capacity_of(n as int),
    ensures
        code_in(encoded(s, n), i) == code_at(s, i),
{
    let k = i / 4;
    let e = encoded(s, n);
    assert(3 * i + 3 <= 4 * n) by (nonlinear_arith)
        requires
            i < n * 4 / 3,
    ;
    assert(i == 4 * k + i % 4);
    lemma_code_below_64(s, 4 * k);
    lemma_code_below_64(s, 4 * k + 1);
    lemma_code_below_64(s, 4 * k + 2);
    lemma_code_below_64(s, 4 * k + 3);
    lemma_unpack_pack(
        code_at(s, 4 * k),
        code_at(s, 4 * k + 1),
        code_at(s, 4 * k + 2),
        code_at(s, 4 * k + 3),
    );
    assert(3 * k < n);
    assert(byte_at(e, 3 * k) == packed_byte(s, 3 * k));
    assert((3 * k) / 3 == k && (3 * k) % 3 == 0);
    if i % 4 >= 1 {
        assert(3 * k + 1 < n);
        assert(byte_at(e, 3 * k + 1) == packed_byte(s, 3 * k + 1));
        assert((3 * k + 1) / 3 == k && (3 * k + 1) % 3 == 1);
    }
    if i % 4 >= 2 {
        assert(3 * k + 2 < n);
        assert(byte_at(e, 3 * k + 2) == packed_byte(s, 3 * k + 2));
        assert((3 * k + 2) / 3 == k && (3 * k + 2) % 3 == 2);
    }
}

/// Content length of a string followed by zero bytes only.
proof fn lemma_content_len_of(x: Seq<u8>, m: int)
    requires
        0 <= m <= x.len(),
        forall|j: int| 0 <= j < m ==> x[j] != 0,
        forall|j: int| m <= j < x.len() ==> x[j] == 0,
    ensures
        content_len(x) == m,
    decreases x.len(),
{
    if x.len() > m {
        let y = x.drop_last();
        assert forall|j: int| m <= j < y.len() implies y[j] == 0 by {
            assert(y[j] == x[j]);
        }
        assert forall|j: int| 0 <= j < m implies y[j] != 0 by {
            assert(y[j] == x[j]);
        }
        lemma_content_len_of(y, m);
    }
}

/// Every byte that a valid string holds is in the full alphabet, and the
/// string fits the byte size.
proof fn lemma_valid_in_alphabet(s: Seq<u8>, config: Config, n: int)
    requires
        config_outcome(s, config, n) is Ok,
    ensures
        all_allowed(Composition::AlphanumericHyphenUnderscore, s),
        s.len() <= capacity_of(n),
{
    assert forall|i: int| 0 <= i < s.len() implies composition_allows(
        Composition::AlphanumericHyphenUnderscore,
        #[trigger] s[i],
    ) by {
        assert(composition_allows(config.composition, s[i]));
    }
}

/// Decoding the packed form of an alphabet string that fits gives the
/// string back, case-folded.
proof fn lemma_decode_encoded(s: Seq<u8>, n: nat)
    requires
        all_allowed(Composition::AlphanumericHyphenUnderscore, s),
        s.len() <= capacity_of(n as int),
    ensures
        decoded(encoded(s, n)) == case_fold(s),
{
    let e = encoded(s, n);
    let x = unpacked(e, capacity_of(n as int) as nat);
    assert forall|i: int| 0 <= i < x.len() implies x[i] == (if i < s.len() {
        fold_byte(s[i])
    } else {
        0
    }) by {
        lemma_code_in_encoded(s, n, i);
        if i < s.len() {
            assert(composition_allows(Composition::AlphanumericHyphenUnderscore, s[i]));
        }
    }
    lemma_content_len_of(x, s.len() as int);
    assert(decoded(e) =~= case_fold(s));
}

/// Round trip: decoding the encoding of a string that validates under a
/// configuration gives the string case-folded, and that string validates
/// under the same configuration.
pub proof fn lemma_round_trip(s: Seq<u8>, config: Config, n: nat)
    requires
        config_outcome(s, config, n as int) is Ok,
    ensures
        decoded(encoded(s, n)) == case_fold(s),
        config_outcome(case_fold(s), config, n as int) is Ok,
{
    lemma_valid_in_alphabet(s, config, n as int);
    lemma_decode_encoded(s, n);
    lemma_fold_invariant(s, config, n);
}

proof fn lemma_fold_pairs(rules: DelimiterRules, s: Seq<u8>, m: int)
    requires
        m <= s.len(),
    ensures
        first_pair_violation(rules, case_fold(s), m) == first_pair_violation(rules, s, m),
    decreases m,
{
    if m > 1 {
        lemma_fold_pairs(rules, s, m - 1);
        let f = case_fold(s);
        assert(f[m - 2] == fold_byte(s[m - 2]) && f[m - 1] == fold_byte(s[m - 1]));
        assert(pair_violation(rules, f[m - 2], f[m - 1]) == pair_violation(rules, s[m - 2], s[m - 1]));
    }
}

/// Case folding changes neither the packed form nor the outcome of
/// validation.
pub proof fn lemma_fold_invariant(s: Seq<u8>, config: Config, n: nat)
    ensures
        encoded(case_fold(s), n) == encoded(s, n),
        config_outcome(case_fold(s), config, n as int) == config_outcome(s, config, n as int),
{
    let f = case_fold(s);
    assert forall|i: int| #[trigger] code_at(f, i) == code_at(s, i) by {}
    assert(encoded(f, n) =~= encoded(s, n));
    let rules = rules_or_default(config.delimiter);
    assert(all_allowed(config.composition, f) == all_allowed(config.composition, s)) by {
        assert forall|i: int| 0 <= i < s.len() implies composition_allows(config.composition, #[trigger] f[i])
            == composition_allows(config.composition, s[i]) by {}
        if all_allowed(config.composition, s) {
            assert forall|i: int| 0 <= i < f.len() implies composition_allows(config.composition, #[trigger] f[i]) by {
                assert(composition_allows(config.composition, s[i]));
            }
        }
        if all_allowed(config.composition, f) {
            assert forall|i: int| 0 <= i < s.len() implies composition_allows(config.composition, #[trigger] s[i]) by {
                assert(composition_allows(config.composition, f[i]));
            }
        }
    }
    lemma_fold_pairs(rules, s, s.len() as int);
    assert(edge_violation(rules, f) == edge_violation(rules, s));
}

/// The empty string packs into all-zero bytes, and all-zero bytes decode to
/// the empty string.
pub proof fn lemma_zero_invariant(n: nat)
    ensures
        encoded(Seq::<u8>::empty(), n) == Seq::new(n, |j: int| 0u8),
        decoded(Seq::new(n, |j: int| 0u8)) == Seq::<u8>::empty(),
{
    assert(pack_first(0, 0) == 0 && pack_second(0, 0) == 0 && pack_third(0, 0) == 0)
        by (bit_vector);
    assert(encoded(Seq::<u8>::empty(), n) =~= Seq::new(n, |j: int| 0u8));
    let z = Seq::new(n, |j: int| 0u8);
    let x = unpacked(z, capacity_of(n as int) as nat);
    assert forall|i: int| 0 <= i < x.len() implies x[i] == 0 by {
        let k = i / 4;
        assert(byte_at(z, 3 * k) == 0 && byte_at(z, 3 * k + 1) == 0 && byte_at(z, 3 * k + 2) == 0);
        assert(0u8 >> 2 == 0 && ((0u8 & 3) << 4) | (0u8 >> 4) == 0 && ((0u8 & 15) << 2) | (0u8 >> 6) == 0 && 0u8 & 63 == 0) by (bit_vector);
    }
    lemma_content_len_of(x, 0);
    assert(decoded(z) =~= Seq::<u8>::empty());
}

/// Capacity boundary: with no user maximum, a string of exactly
/// `floor(n * 4 / 3)` characters passes the length checks, and one more
/// character is too long.
pub proof fn lemma_capacity_boundary(s: Seq<u8>, config: Config, n: nat)
    requires
        config.max_length is None,
        capacity_of(n as int) <= usize::MAX,
        config.min_length is Some ==> config.min_length->0 <= capacity_of(n as int),
    ensures
        s.len() == capacity_of(n as int) ==> config_outcome(s, config, n as int) == (if !all_allowed(
            config.composition,
            s,
        ) {
            Err(Error::InvalidCharacter)
        } else {
            delimiter_outcome(rules_or_default(config.delimiter), s)
        }),
        s.len() == capacity_of(n as int) + 1 ==> config_outcome(s, config, n as int) == Err::<
            (),
            Error,
        >(Error::StringTooLong(capacity_of(n as int) as usize)),
{
}

/// `x` comes before `y` in lexicographic order, and they first differ at `i`.
pub open spec fn lex_lt_at(x: Seq<u8>, y: Seq<u8>, i: int) -> bool {
    &&& 0 <= i <= x.len()
    &&& i <= y.len()
    &&& forall|j: int| 0 <= j < i ==> x[j] == y[j]
    &&& (i == x.len() && i < y.len()) || (i < x.len() && i < y.len() && x[i] < y[i])
}

/// `x` comes before `y` in lexicographic order.
pub open spec fn lex_lt(x: Seq<u8>, y: Seq<u8>) -> bool {
    exists|i: int| lex_lt_at(x, y, i)
}

/// At `i`, one string holds an underscore and the other a lowercase letter:
/// the one place where the order of bytes and the order of codes disagree.
pub open spec fn underscore_meets_letter(x: Seq<u8>, y: Seq<u8>, i: int) -> bool {
    &&& 0 <= i < x.len()
    &&& i < y.len()
    &&& (x[i] == UNDERSCORE && 97 <= y[i] <= 122) || (y[i] == UNDERSCORE && 97 <= x[i] <= 122)
}

/// Packed groups of four codes compare as the codes do: if the codes first
/// differ at offset `r`, the bytes first differ at an offset up to `r` (and
/// below three) in the same direction.
proof fn lemma_group_order(
    a1: u8,
    b1: u8,
    c1: u8,
    d1: u8,
    a2: u8,
    b2: u8,
    c2: u8,
    d2: u8,
    r: int,
)
    requires
        a1 < 64 && b1 < 64 && c1 < 64 && d1 < 64,
        a2 < 64 && b2 < 64 && c2 < 64 && d2 < 64,
        0 <= r < 4,
        r == 0 ==> a1 < a2,
        r == 1 ==> a1 == a2 && b1 < b2,
        r == 2 ==> a1 == a2 && b1 == b2 && c1 < c2,
        r == 3 ==> a1 == a2 && b1 == b2 && c1 == c2 && d1 < d2,
    ensures
        pack_first(a1, b1) < pack_first(a2, b2) || (r >= 1 && pack_first(a1, b1) == pack_first(
            a2,
            b2,
        ) && pack_second(b1, c1) < pack_second(b2, c2)) || (r >= 2 && pack_first(a1, b1)
            == pack_first(a2, b2) && pack_second(b1, c1) == pack_second(b2, c2) && pack_third(
            c1,
            d1,
        ) < pack_third(c2, d2)),
{
    if r == 0 {
        assert(((a1 << 2) | (b1 >> 4)) < ((a2 << 2) | (b2 >> 4))) by (bit_vector)
            requires
                a1 < 64 && b1 < 64 && a2 < 64 && b2 < 64,
                a1 < a2,
        ;
    } else if r == 1 {
        assert(((a1 << 2) | (b1 >> 4)) < ((a2 << 2) | (b2 >> 4)) || (((a1 << 2) | (b1 >> 4)) == ((
        a2 << 2) | (b2 >> 4)) && (((b1 & 15) << 4) | (c1 >> 2)) < (((b2 & 15) << 4) | (c2 >> 2))))
            by (bit_vector)
            requires
                a1 < 64 && b1 < 64 && c1 < 64 && a2 < 64 && b2 < 64 && c2 < 64,
                a1 == a2 && b1 < b2,
        ;
    } else if r == 2 {
        assert(((((b1 & 15) << 4) | (c1 >> 2)) < (((b2 & 15) << 4) | (c2 >> 2))) || ((((b1 & 15)
            << 4) | (c1 >> 2)) == (((b2 & 15) << 4) | (c2 >> 2)) && (((c1 & 3) << 6) | d1) < (((
        c2 & 3) << 6) | d2))) by (bit_vector)
            requires
                b1 < 64 && c1 < 64 && d1 < 64 && b2 < 64 && c2 < 64 && d2 < 64,
                b1 == b2 && c1 < c2,
        ;
    } else {
        assert((((c1 & 3) << 6) | d1) < (((c2 & 3) << 6) | d2)) by (bit_vector)
            requires
                c1 < 64 && d1 < 64 && c2 < 64 && d2 < 64,
                c1 == c2 && d1 < d2,
        ;
    }
}

/// On the alphabet, the codes of case-folded bytes keep the byte order,
/// except between an underscore and a lowercase letter.
proof fn lemma_code_order(x: u8, y: u8)
    requires
        composition_allows(Composition::AlphanumericHyphenUnderscore, x),
        composition_allows(Composition::AlphanumericHyphenUnderscore, y),
        fold_byte(x) < fold_byte(y),
        !(fold_byte(x) == UNDERSCORE && 97 <= fold_byte(y) <= 122),
    ensures
        sixbit_code(x) < sixbit_code(y),
{
}

/// Order preservation: when the case-folded form of a valid string `a` comes
/// before that of a valid string `b`, the packed bytes of `a` come before
/// those of `b`, unless the strings first differ where one has an underscore
/// and the other a letter.
pub proof fn lemma_order_preserved(a: Seq<u8>, b: Seq<u8>, config: Config, n: nat)
    requires
        config_outcome(a, config, n as int) is Ok,
        config_outcome(b, config, n as int) is Ok,
        lex_lt(case_fold(a), case_fold(b)),
        forall|i: int|
            lex_lt_at(case_fold(a), case_fold(b), i) ==> !underscore_meets_letter(
                case_fold(a),
                case_fold(b),
                i,
            ),
    ensures
        lex_lt(encoded(a, n), encoded(b, n)),
{
    lemma_valid_in_alphabet(a, config, n as int);
    lemma_valid_in_alphabet(b, config, n as int);
    let fa = case_fold(a);
    let fb = case_fold(b);
    let i = choose|i: int| lex_lt_at(fa, fb, i);
    assert(!underscore_meets_letter(fa, fb, i));
    assert forall|j: int| 0 <= j < i implies #[trigger] code_at(a, j) == code_at(b, j) by {
        assert(fa[j] == fb[j]);
    }
    assert(code_at(a, i) < code_at(b, i)) by {
        if i < a.len() {
            assert(composition_allows(Composition::AlphanumericHyphenUnderscore, a[i]));
            assert(composition_allows(Composition::AlphanumericHyphenUnderscore, b[i]));
            lemma_code_order(a[i], b[i]);
        } else {
            assert(composition_allows(Composition::AlphanumericHyphenUnderscore, b[i]));
        }
    }
    let k = i / 4;
    let r = i % 4;
    assert(i == 4 * k + r);
    assert(i < b.len());
    assert(3 * i + 3 <= 4 * n) by (nonlinear_arith)
        requires
            i < b.len(),
            b.len() <= n * 4 / 3,
    ;
    let ea = encoded(a, n);
    let eb = encoded(b, n);
    lemma_code_below_64(a, 4 * k);
    lemma_code_below_64(a, 4 * k + 1);
    lemma_code_below_64(a, 4 * k + 2);
    lemma_code_below_64(a, 4 * k + 3);
    lemma_code_below_64(b, 4 * k);
    lemma_code_below_64(b, 4 * k + 1);
    lemma_code_below_64(b, 4 * k + 2);
    lemma_code_below_64(b, 4 * k + 3);
    if r >= 1 {
        assert(code_at(a, 4 * k) == code_at(b, 4 * k));
    }
    if r >= 2 {
        assert(code_at(a, 4 * k + 1) == code_at(b, 4 * k + 1));
    }
    if r >= 3 {
        assert(code_at(a, 4 * k + 2) == code_at(b, 4 * k + 2));
    }
    lemma_group_order(
        code_at(a, 4 * k),
        code_at(a, 4 * k + 1),
        code_at(a, 4 * k + 2),
        code_at(a, 4 * k + 3),
        code_at(b, 4 * k),
        code_at(b, 4 * k + 1),
        code_at(b, 4 * k + 2),
        code_at(b, 4 * k + 3),
        r,
    );
    assert forall|j: int| 0 <= j < 3 * k implies ea[j] == eb[j] by {
        let g = j / 3;
        assert(4 * g + 3 < i);
        assert(code_at(a, 4 * g) == code_at(b, 4 * g));
        assert(code_at(a, 4 * g + 1) == code_at(b, 4 * g + 1));
        assert(code_at(a, 4 * g + 2) == code_at(b, 4 * g + 2));
        assert(code_at(a, 4 * g + 3) == code_at(b, 4 * g + 3));
    }
    assert(3 * k < n);
    assert((3 * k) / 3 == k && (3 * k) % 3 == 0);
    assert((3 * k + 1) / 3 == k && (3 * k + 1) % 3 == 1);
    assert((3 * k + 2) / 3 == k && (3 * k + 2) % 3 == 2);
    if ea[3 * k] < eb[3 * k] {
        assert(lex_lt_at(ea, eb, 3 * k));
    } else if r >= 1 && ea[3 * k] == eb[3 * k] && ea[3 * k + 1] < eb[3 * k + 1] {
        assert(3 * k + 1 < n);
        assert forall|j: int| 0 <= j < 3 * k + 1 implies ea[j] == eb[j] by {}
        assert(lex_lt_at(ea, eb, 3 * k + 1));
    } else {
        assert(3 * k + 2 < n);
        assert forall|j: int| 0 <= j < 3 * k + 2 implies ea[j] == eb[j] by {}
        assert(lex_lt_at(ea, eb, 3 * k + 2));
    }
}

} // verus!
