//! The validator: length bounds, a word-parallel character-class pass and,
//! when needed, a pass over delimiter placement.

use vstd::prelude::*;
use vstd::string::StringSliceAdditionalSpecFns;

use crate::config::{
    calc_str_len, capacity_of, compile_config, effective_max_of, rules_or_default, CompiledConfig,
    Composition, Config, DelimiterRules,
};
use crate::error::ConfigError;
use crate::error::Error;
use crate::validate_char::{
    composition_allows, is_delimiter, validate_for_composition, HYPHEN, UNDERSCORE,
};
use crate::validate_swar::{
    chunk_allows, chunk_has, lane, validate_chunk_alnum, validate_chunk_both,
    validate_chunk_hyphen, validate_chunk_underscore,
};

verus! {

/// Whether the composition admits every byte of `s`.
pub open spec fn all_allowed(composition: Composition, s: Seq<u8>) -> bool {
    forall|i: int| 0 <= i < s.len() ==> composition_allows(composition, #[trigger] s[i])
}

/// Whether `s` holds the byte `b`.
pub open spec fn contains_byte(s: Seq<u8>, b: u8) -> bool {
    exists|i: int| 0 <= i < s.len() && s[i] == b
}

/// The rule, if any, that `cur` breaks by following `prev`.
pub open spec fn pair_violation(rules: DelimiterRules, prev: u8, cur: u8) -> Option<Error> {
    if is_delimiter(prev) && is_delimiter(cur) {
        if prev == cur {
            if cur == HYPHEN && !rules.allow_consecutive_hyphens {
                Some(Error::ConsecutiveHyphens)
            } else if cur == UNDERSCORE && !rules.allow_consecutive_underscores {
                Some(Error::ConsecutiveUnderscores)
            } else {
                None
            }
        } else if !rules.allow_adjacent_hyphen_underscore {
            Some(Error::AdjacentHyphenUnderscore)
        } else {
            None
        }
    } else {
        None
    }
}

/// The first rule broken by two neighbouring bytes among the first `n` bytes of `s`.
pub open spec fn first_pair_violation(rules: DelimiterRules, s: Seq<u8>, n: int) -> Option<Error>
    decreases n,
{
    if n <= 1 {
        None
    } else {
        match first_pair_violation(rules, s, n - 1) {
            Some(e) => Some(e),
            None => pair_violation(rules, s[n - 2], s[n - 1]),
        }
    }
}

/// The rule, if any, that the first or last byte of `s` breaks; hyphens are checked first.
pub open spec fn edge_violation(rules: DelimiterRules, s: Seq<u8>) -> Option<Error> {
    if s.len() > 0 && !rules.allow_leading_trailing_hyphens && (s[0] == HYPHEN || s.last()
        == HYPHEN) {
        Some(Error::LeadingTrailingHyphen)
    } else if s.len() > 0 && !rules.allow_leading_trailing_underscores && (s[0] == UNDERSCORE
        || s.last() == UNDERSCORE) {
        Some(Error::LeadingTrailingUnderscore)
    } else {
        None
    }
}

/// The outcome of checking delimiter placement: neighbouring delimiters
/// first, in order, then the ends.
pub open spec fn delimiter_outcome(rules: DelimiterRules, s: Seq<u8>) -> Result<(), Error> {
    match first_pair_violation(rules, s, s.len() as int) {
        Some(e) => Err(e),
        None => match edge_violation(rules, s) {
            Some(e) => Err(e),
            None => Ok(()),
        },
    }
}

/// The outcome of validating `s`: length bounds, then character classes, then
/// delimiter placement.
pub open spec fn validation_outcome(
    s: Seq<u8>,
    min_length: Option<usize>,
    effective_max: int,
    composition: Composition,
    rules: DelimiterRules,
) -> Result<(), Error> {
    if min_length is Some && s.len() < min_length->0 {
        Err(Error::StringTooShort(min_length->0))
    } else if s.len() > effective_max {
        Err(Error::StringTooLong(effective_max as usize))
    } else if !all_allowed(composition, s) {
        Err(Error::InvalidCharacter)
    } else {
        delimiter_outcome(rules, s)
    }
}

proof fn lemma_pair_scan_none(rules: DelimiterRules, s: Seq<u8>, n: int)
    requires
        n <= s.len(),
        forall|j: int| 1 <= j < n ==> pair_violation(rules, s[j - 1], #[trigger] s[j]) is None,
    ensures
        first_pair_violation(rules, s, n) is None,
    decreases n,
{
    if n > 1 {
        lemma_pair_scan_none(rules, s, n - 1);
        assert(pair_violation(rules, s[n - 2], s[n - 1]) is None);
    }
}

/// Once found, the first broken rule stays the first one found.
proof fn lemma_pair_scan_found(rules: DelimiterRules, s: Seq<u8>, k: int, n: int)
    requires
        k <= n <= s.len(),
        first_pair_violation(rules, s, k) is Some,
    ensures
        first_pair_violation(rules, s, n) == first_pair_violation(rules, s, k),
    decreases n - k,
{
    if n > k {
        lemma_pair_scan_found(rules, s, k, n - 1);
    }
}

/// Without any delimiter, no placement rule can be broken.
proof fn lemma_no_delimiters_ok(rules: DelimiterRules, s: Seq<u8>)
    requires
        !contains_byte(s, HYPHEN),
        !contains_byte(s, UNDERSCORE),
    ensures
        delimiter_outcome(rules, s) == Ok::<(), Error>(()),
{
    assert forall|j: int| 1 <= j < s.len() implies pair_violation(
        rules,
        s[j - 1],
        #[trigger] s[j],
    ) is None by {
        assert(!(s[j] == HYPHEN));
        assert(!(s[j] == UNDERSCORE));
    }
    lemma_pair_scan_none(rules, s, s.len() as int);
    if s.len() > 0 {
        assert(!(s[0] == HYPHEN) && !(s[0] == UNDERSCORE));
        assert(!(s[s.len() - 1] == HYPHEN) && !(s[s.len() - 1] == UNDERSCORE));
    }
}

/// When the rules allow every placement that the composition makes possible,
/// no placement rule can be broken.
proof fn lemma_permissive_rules_ok(composition: Composition, rules: DelimiterRules, s: Seq<u8>)
    requires
        all_allowed(composition, s),
        !crate::config::spec_needs_delimiter_pass(composition, rules),
    ensures
        delimiter_outcome(rules, s) == Ok::<(), Error>(()),
{
    assert forall|j: int| 1 <= j < s.len() implies pair_violation(
        rules,
        s[j - 1],
        #[trigger] s[j],
    ) is None by {
        assert(composition_allows(composition, s[j - 1]));
        assert(composition_allows(composition, s[j]));
    }
    lemma_pair_scan_none(rules, s, s.len() as int);
    if s.len() > 0 {
        assert(composition_allows(composition, s[0]));
        assert(composition_allows(composition, s[s.len() - 1]));
    }
}

/// Checks the placement of delimiters, byte by byte, remembering the last
/// delimiter seen; then checks the first and last byte.
fn check_delimiters(bytes: &[u8], rules: &DelimiterRules) -> (r: Result<(), Error>)
    ensures
        r == delimiter_outcome(*rules, bytes@),
{
    let len = bytes.len();
    let mut last_delim: Option<u8> = None;
    let mut i: usize = 0;
    while i < len
        invariant
            i <= len == bytes@.len(),
            first_pair_violation(*rules, bytes@, i as int) is None,
            last_delim == (if i > 0 && is_delimiter(bytes@[i - 1]) {
                Some(bytes@[i - 1])
            } else {
                None
            }),
        decreases len - i,
    {
        let b = bytes[i];
        if b == HYPHEN || b == UNDERSCORE {
            if let Some(prev) = last_delim {
                if prev == b {
                    if b == HYPHEN && !rules.allow_consecutive_hyphens {
                        proof {
                            lemma_pair_scan_found(*rules, bytes@, i + 1, len as int);
                        }
                        return Err(Error::ConsecutiveHyphens);
                    }
                    if b == UNDERSCORE && !rules.allow_consecutive_underscores {
                        proof {
                            lemma_pair_scan_found(*rules, bytes@, i + 1, len as int);
                        }
                        return Err(Error::ConsecutiveUnderscores);
                    }
                } else if !rules.allow_adjacent_hyphen_underscore {
                    proof {
                        lemma_pair_scan_found(*rules, bytes@, i + 1, len as int);
                    }
                    return Err(Error::AdjacentHyphenUnderscore);
                }
            }
            last_delim = Some(b);
        } else {
            last_delim = None;
        }
        i = i + 1;
    }
    if len > 0 && !rules.allow_leading_trailing_hyphens && (bytes[0] == HYPHEN || bytes[len - 1]
        == HYPHEN) {
        return Err(Error::LeadingTrailingHyphen);
    }
    if len > 0 && !rules.allow_leading_trailing_underscores && (bytes[0] == UNDERSCORE || bytes[len
        - 1] == UNDERSCORE) {
        return Err(Error::LeadingTrailingUnderscore);
    }
    Ok(())
}

/// Reads the eight bytes at `i` as one word, the first byte in the low lane.
fn load_word(bytes: &[u8], i: usize) -> (w: u64)
    requires
        i + 8 <= bytes@.len(),
    ensures
        forall|k: u64| k < 8 ==> #[trigger] lane(w, k) == bytes@[i + k],
{
    let b0 = bytes[i];
    let b1 = bytes[i + 1];
    let b2 = bytes[i + 2];
    let b3 = bytes[i + 3];
    let b4 = bytes[i + 4];
    let b5 = bytes[i + 5];
    let b6 = bytes[i + 6];
    let b7 = bytes[i + 7];
    let w = (b0 as u64) | ((b1 as u64) << 8) | ((b2 as u64) << 16) | ((b3 as u64) << 24) | ((
    b4 as u64) << 32) | ((b5 as u64) << 40) | ((b6 as u64) << 48) | ((b7 as u64) << 56);
    proof {
        assert(lane(w, 0) == b0 && lane(w, 1) == b1 && lane(w, 2) == b2 && lane(w, 3) == b3
            && lane(w, 4) == b4 && lane(w, 5) == b5 && lane(w, 6) == b6 && lane(w, 7) == b7)
            by (bit_vector)
            requires
                w == (b0 as u64) | ((b1 as u64) << 8) | ((b2 as u64) << 16) | ((b3 as u64) << 24)
                    | ((b4 as u64) << 32) | ((b5 as u64) << 40) | ((b6 as u64) << 48) | ((
                b7 as u64) << 56),
        ;
        assert forall|k: u64| k < 8 implies #[trigger] lane(w, k) == bytes@[i + k] by {
            assert(k == 0 || k == 1 || k == 2 || k == 3 || k == 4 || k == 5 || k == 6 || k == 7);
        }
    }
    w
}

/// Checks a word against the composition with the matching word-parallel check.
fn check_word(composition: Composition, w: u64) -> (r: (bool, bool, bool))
    ensures
        r.0 == chunk_allows(composition, w),
        r.0 ==> r.1 == chunk_has(w, HYPHEN),
        r.0 ==> r.2 == chunk_has(w, UNDERSCORE),
{
    let r = match composition {
        Composition::Alphanumeric => validate_chunk_alnum(w),
        Composition::AlphanumericHyphen => validate_chunk_hyphen(w),
        Composition::AlphanumericUnderscore => validate_chunk_underscore(w),
        Composition::AlphanumericHyphenUnderscore => validate_chunk_both(w),
    };
    proof {
        if r.0 {
            if chunk_has(w, HYPHEN) && !composition.spec_allows_hyphen() {
                let k = choose|k: u64| k < 8 && #[trigger] lane(w, k) == HYPHEN;
                assert(composition_allows(composition, lane(w, k)));
            }
            if chunk_has(w, UNDERSCORE) && !composition.spec_allows_underscore() {
                let k = choose|k: u64| k < 8 && #[trigger] lane(w, k) == UNDERSCORE;
                assert(composition_allows(composition, lane(w, k)));
            }
        }
    }
    r
}

/// The bulk character-class pass: whole words first, then the bytes left
/// over. Returns (every byte admitted, some hyphen seen, some underscore seen).
fn check_classes(bytes: &[u8], composition: Composition) -> (r: (bool, bool, bool))
    ensures
        r.0 == all_allowed(composition, bytes@),
        r.0 ==> r.1 == contains_byte(bytes@, HYPHEN),
        r.0 ==> r.2 == contains_byte(bytes@, UNDERSCORE),
{
    let len = bytes.len();
    let ghost s = bytes@;
    let mut has_hyphen = false;
    let mut has_underscore = false;
    let mut i: usize = 0;
    while len - i >= 8
        invariant
            len == s.len(),
            s == bytes@,
            i <= len,
            all_allowed(composition, s.subrange(0, i as int)),
            has_hyphen == contains_byte(s.subrange(0, i as int), HYPHEN),
            has_underscore == contains_byte(s.subrange(0, i as int), UNDERSCORE),
        decreases len - i,
    {
        let w = load_word(bytes, i);
        let (ok, hyphen, underscore) = check_word(composition, w);
        if !ok {
            proof {
                let k = choose|k: u64| k < 8 && !composition_allows(composition, #[trigger] lane(w, k));
                assert(!composition_allows(composition, s[i + k]));
            }
            return (false, false, false);
        }
        proof {
            let p = s.subrange(0, i as int);
            let q = s.subrange(0, i + 8);
            assert forall|j: int| 0 <= j < q.len() implies composition_allows(
                composition,
                #[trigger] q[j],
            ) by {
                if j >= i {
                    assert(lane(w, (j - i) as u64) == s[i + (j - i) as u64]);
                } else {
                    assert(q[j] == p[j]);
                }
            }
            assert(hyphen || has_hyphen <==> contains_byte(q, HYPHEN)) by {
                if contains_byte(q, HYPHEN) {
                    let j = choose|j: int| 0 <= j < q.len() && q[j] == HYPHEN;
                    if j >= i {
                        assert(lane(w, (j - i) as u64) == s[i + (j - i) as u64]);
                    } else {
                        assert(p[j] == HYPHEN);
                    }
                }
                if hyphen {
                    let k = choose|k: u64| k < 8 && #[trigger] lane(w, k) == HYPHEN;
                    assert(q[i + k] == HYPHEN);
                }
                if has_hyphen {
                    let j = choose|j: int| 0 <= j < p.len() && p[j] == HYPHEN;
                    assert(q[j] == HYPHEN);
                }
            }
            assert(underscore || has_underscore <==> contains_byte(q, UNDERSCORE)) by {
                if contains_byte(q, UNDERSCORE) {
                    let j = choose|j: int| 0 <= j < q.len() && q[j] == UNDERSCORE;
                    if j >= i {
                        assert(lane(w, (j - i) as u64) == s[i + (j - i) as u64]);
                    } else {
                        assert(p[j] == UNDERSCORE);
                    }
                }
                if underscore {
                    let k = choose|k: u64| k < 8 && #[trigger] lane(w, k) == UNDERSCORE;
                    assert(q[i + k] == UNDERSCORE);
                }
                if has_underscore {
                    let j = choose|j: int| 0 <= j < p.len() && p[j] == UNDERSCORE;
                    assert(q[j] == UNDERSCORE);
                }
            }
        }
        has_hyphen = has_hyphen || hyphen;
        has_underscore = has_underscore || underscore;
        i = i + 8;
    }
    while i < len
        invariant
            len == s.len(),
            s == bytes@,
            i <= len,
            all_allowed(composition, s.subrange(0, i as int)),
            has_hyphen == contains_byte(s.subrange(0, i as int), HYPHEN),
            has_underscore == contains_byte(s.subrange(0, i as int), UNDERSCORE),
        decreases len - i,
    {
        let b = bytes[i];
        if validate_for_composition(composition, b).is_err() {
            return (false, false, false);
        }
        proof {
            let p = s.subrange(0, i as int);
            let q = s.subrange(0, i + 1);
            assert(q == p.push(b));
            assert forall|j: int| 0 <= j < q.len() implies composition_allows(
                composition,
                #[trigger] q[j],
            ) by {
                if j < i {
                    assert(q[j] == p[j]);
                }
            }
            assert(has_hyphen || b == HYPHEN <==> contains_byte(q, HYPHEN)) by {
                if contains_byte(q, HYPHEN) {
                    let j = choose|j: int| 0 <= j < q.len() && q[j] == HYPHEN;
                    if j < i {
                        assert(p[j] == HYPHEN);
                    }
                }
                if has_hyphen {
                    let j = choose|j: int| 0 <= j < p.len() && p[j] == HYPHEN;
                    assert(q[j] == HYPHEN);
                }
                assert(q[i as int] == b);
            }
            assert(has_underscore || b == UNDERSCORE <==> contains_byte(q, UNDERSCORE)) by {
                if contains_byte(q, UNDERSCORE) {
                    let j = choose|j: int| 0 <= j < q.len() && q[j] == UNDERSCORE;
                    if j < i {
                        assert(p[j] == UNDERSCORE);
                    }
                }
                if has_underscore {
                    let j = choose|j: int| 0 <= j < p.len() && p[j] == UNDERSCORE;
                    assert(q[j] == UNDERSCORE);
                }
                assert(q[i as int] == b);
            }
        }
        has_hyphen = has_hyphen || b == HYPHEN;
        has_underscore = has_underscore || b == UNDERSCORE;
        i = i + 1;
    }
    proof {
        assert(s.subrange(0, len as int) == s);
    }
    (true, has_hyphen, has_underscore)
}

/// The outcome of validating `s` under `config` for the byte size `n`; a
/// minimum above the effective maximum is a configuration error.
pub open spec fn config_outcome(s: Seq<u8>, config: Config, n: int) -> Result<(), Error> {
    let effective_max = effective_max_of(n, config.max_length);
    if config.min_length is Some && config.min_length->0 > effective_max {
        Err(Error::InvalidConfig(effective_max as usize, config.min_length->0))
    } else {
        validation_outcome(
            s,
            config.min_length,
            effective_max,
            config.composition,
            rules_or_default(config.delimiter),
        )
    }
}

/// Validates a string against a compiled configuration: length bounds, the
/// word-parallel class pass, then the delimiter pass where delimiters occur
/// and the rules could be broken.
pub fn validate_compiled<const N: usize>(input: &str, config: &CompiledConfig<N>) -> (r: Result<
    (),
    Error,
>)
    requires
        config.wf(),
    ensures
        r == validation_outcome(
            input.spec_bytes(),
            config.min_length,
            config.effective_max as int,
            config.composition,
            config.rules,
        ),
{
    let bytes = input.as_bytes();
    let len = bytes.len();
    if let Some(min) = config.min_length {
        if len < min {
            return Err(Error::StringTooShort(min));
        }
    }
    if len > config.effective_max {
        return Err(Error::StringTooLong(config.effective_max));
    }
    let (ok, has_hyphen, has_underscore) = check_classes(bytes, config.composition);
    if !ok {
        return Err(Error::InvalidCharacter);
    }
    if !(has_hyphen || has_underscore) {
        proof {
            lemma_no_delimiters_ok(config.rules, bytes@);
        }
        return Ok(());
    }
    if !config.needs_delimiter_pass {
        proof {
            lemma_permissive_rules_ok(config.composition, config.rules, bytes@);
        }
        return Ok(());
    }
    check_delimiters(bytes, &config.rules)
}

/// Validates a HexaURL string for the byte size `N`.
pub fn validate_with_config<const N: usize>(input: &str, config: Config) -> (r: Result<(), Error>)
    requires
        capacity_of(N as int) <= usize::MAX,
    ensures
        r == config_outcome(input.spec_bytes(), config, N as int),
{
    match compile_config::<N>(
        config.min_length,
        config.max_length,
        config.composition,
        config.delimiter,
    ) {
        Ok(compiled) => validate_compiled(input, &compiled),
        Err(ConfigError::InvalidCompiledLengthRange(min, effective_max)) => Err(
            Error::InvalidConfig(effective_max, min),
        ),
        Err(ConfigError::InvalidLengthRange(min, _)) => {
            let capacity = calc_str_len(N);
            let effective_max = match config.max_length {
                Some(max) => if max < capacity {
                    max
                } else {
                    capacity
                },
                None => capacity,
            };
            Err(Error::InvalidConfig(effective_max, min))
        },
    }
}

/// Validates a HexaURL string for the byte size `N` with the default configuration.
pub fn validate<const N: usize>(input: &str) -> (r: Result<(), Error>)
    requires
        capacity_of(N as int) <= usize::MAX,
    ensures
        r == config_outcome(input.spec_bytes(), Config::spec_default(), N as int),
{
    validate_with_config::<N>(input, Config::default())
}

/// Validates a string against the minimal configuration: the length bound of
/// the byte size `N`, and letters, digits, hyphens and underscores anywhere.
pub fn validate_minimal_config<const N: usize>(input: &str) -> (r: Result<(), Error>)
    requires
        capacity_of(N as int) <= usize::MAX,
    ensures
        r == config_outcome(input.spec_bytes(), Config::spec_minimal(), N as int),
        r == (if input.spec_bytes().len() > capacity_of(N as int) {
            Err(Error::StringTooLong(capacity_of(N as int) as usize))
        } else if !all_allowed(Composition::AlphanumericHyphenUnderscore, input.spec_bytes()) {
            Err(Error::InvalidCharacter)
        } else {
            Ok(())
        }),
{
    let max = calc_str_len(N);
    let bytes = input.as_bytes();
    if bytes.len() > max {
        return Err(Error::StringTooLong(max));
    }
    let mut i: usize = 0;
    while i < bytes.len()
        invariant
            i <= bytes@.len(),
            bytes@ == input.spec_bytes(),
            bytes@.len() <= max == capacity_of(N as int),
            forall|j: int|
                0 <= j < i ==> composition_allows(
                    Composition::AlphanumericHyphenUnderscore,
                    #[trigger] bytes@[j],
                ),
        decreases bytes@.len() - i,
    {
        if validate_for_composition(Composition::AlphanumericHyphenUnderscore, bytes[i]).is_err() {
            proof {
                assert(!composition_allows(
                    Composition::AlphanumericHyphenUnderscore,
                    bytes@[i as int],
                ));
            }
            return Err(Error::InvalidCharacter);
        }
        i = i + 1;
    }
    proof {
        lemma_permissive_rules_ok(
            Composition::AlphanumericHyphenUnderscore,
            DelimiterRules::spec_all_allowed(),
            bytes@,
        );
    }
    Ok(())
}

/// Whether every byte is ASCII.
pub open spec fn all_ascii(s: Seq<u8>) -> bool {
    forall|i: int| 0 <= i < s.len() ==> #[trigger] s[i] < 128
}

/// The quick check for deriving a lookup key from trusted data: the length
/// fits the byte size `N` and the string is ASCII. Composition and delimiter
/// rules are not checked.
pub fn check_encoding_safe<const N: usize>(input: &str) -> (r: Result<(), Error>)
    requires
        capacity_of(N as int) <= usize::MAX,
    ensures
        r == (if input.spec_bytes().len() > capacity_of(N as int) {
            Err(Error::StringTooLong(capacity_of(N as int) as usize))
        } else if !all_ascii(input.spec_bytes()) {
            Err(Error::InvalidCharacter)
        } else {
            Ok(())
        }),
{
    let max = calc_str_len(N);
    let bytes = input.as_bytes();
    if bytes.len() > max {
        return Err(Error::StringTooLong(max));
    }
    let mut i: usize = 0;
    while i < bytes.len()
        invariant
            i <= bytes@.len(),
            bytes@ == input.spec_bytes(),
            bytes@.len() <= max == capacity_of(N as int),
            forall|j: int| 0 <= j < i ==> #[trigger] bytes@[j] < 128,
        decreases bytes@.len() - i,
    {
        if bytes[i] >= 128 {
            proof {
                assert(!(bytes@[i as int] < 128));
            }
            return Err(Error::InvalidCharacter);
        }
        i = i + 1;
    }
    Ok(())
}

/// The byte-by-byte reference check from position `i`, where `last` is the
/// delimiter just before `i`, if any: each byte's class, then its placement
/// after the previous delimiter; at the end, the first and last byte.
pub open spec fn bytewise_scan(
    composition: Composition,
    rules: DelimiterRules,
    s: Seq<u8>,
    i: int,
    last: Option<u8>,
) -> Result<(), Error>
    decreases s.len() - i,
{
    if i >= s.len() {
        match edge_violation(rules, s) {
            Some(e) => Err(e),
            None => Ok(()),
        }
    } else if !composition_allows(composition, s[i]) {
        Err(Error::InvalidCharacter)
    } else if is_delimiter(s[i]) {
        match last {
            Some(prev) => match pair_violation(rules, prev, s[i]) {
                Some(e) => Err(e),
                None => bytewise_scan(composition, rules, s, i + 1, Some(s[i])),
            },
            None => bytewise_scan(composition, rules, s, i + 1, Some(s[i])),
        }
    } else {
        bytewise_scan(composition, rules, s, i + 1, None)
    }
}

/// The outcome of the byte-by-byte reference check: length bounds, then one
/// scan in which class and placement errors come in the order of the bytes.
pub open spec fn bytewise_outcome(
    s: Seq<u8>,
    min_length: Option<usize>,
    effective_max: int,
    composition: Composition,
    rules: DelimiterRules,
) -> Result<(), Error> {
    if min_length is Some && s.len() < min_length->0 {
        Err(Error::StringTooShort(min_length->0))
    } else if s.len() > effective_max {
        Err(Error::StringTooLong(effective_max as usize))
    } else {
        bytewise_scan(composition, rules, s, 0, None)
    }
}

/// The delimiter just before position `i`, if any.
pub open spec fn delimiter_before(s: Seq<u8>, i: int) -> Option<u8> {
    if i > 0 && is_delimiter(s[i - 1]) {
        Some(s[i - 1])
    } else {
        None
    }
}

/// The naive scalar validator, checking one byte at a time and tracking the
/// last delimiter seen; kept as the reference for the word-parallel one.
pub fn validate_bytewise<const N: usize>(input: &str, config: &CompiledConfig<N>) -> (r: Result<
    (),
    Error,
>)
    requires
        config.wf(),
    ensures
        r == bytewise_outcome(
            input.spec_bytes(),
            config.min_length,
            config.effective_max as int,
            config.composition,
            config.rules,
        ),
{
    let bytes = input.as_bytes();
    let len = bytes.len();
    if let Some(min) = config.min_length {
        if len < min {
            return Err(Error::StringTooShort(min));
        }
    }
    if len > config.effective_max {
        return Err(Error::StringTooLong(config.effective_max));
    }
    let ghost s = bytes@;
    let rules = config.rules;
    let composition = config.composition;
    let mut last_delim: Option<u8> = None;
    let mut i: usize = 0;
    while i < len
        invariant
            s == bytes@,
            s == input.spec_bytes(),
            rules == config.rules,
            composition == config.composition,
            config.min_length is Some ==> len >= config.min_length->0,
            len <= config.effective_max,
            i <= len == s.len(),
            last_delim == delimiter_before(s, i as int),
            bytewise_scan(composition, rules, s, 0, None) == bytewise_scan(
                composition,
                rules,
                s,
                i as int,
                last_delim,
            ),
        decreases len - i,
    {
        let b = bytes[i];
        if validate_for_composition(composition, b).is_err() {
            return Err(Error::InvalidCharacter);
        }
        if b == HYPHEN || b == UNDERSCORE {
            if let Some(prev) = last_delim {
                if prev == b {
                    if b == HYPHEN && !rules.allow_consecutive_hyphens {
                        return Err(Error::ConsecutiveHyphens);
                    }
                    if b == UNDERSCORE && !rules.allow_consecutive_underscores {
                        return Err(Error::ConsecutiveUnderscores);
                    }
                } else if !rules.allow_adjacent_hyphen_underscore {
                    return Err(Error::AdjacentHyphenUnderscore);
                }
            }
            last_delim = Some(b);
        } else {
            last_delim = None;
        }
        i = i + 1;
    }
    if len > 0 && !rules.allow_leading_trailing_hyphens && (bytes[0] == HYPHEN || bytes[len - 1]
        == HYPHEN) {
        return Err(Error::LeadingTrailingHyphen);
    }
    if len > 0 && !rules.allow_leading_trailing_underscores && (bytes[0] == UNDERSCORE || bytes[len
        - 1] == UNDERSCORE) {
        return Err(Error::LeadingTrailingUnderscore);
    }
    Ok(())
}

/// No two neighbouring bytes from position `i` on break a rule.
pub open spec fn pairs_ok_from(rules: DelimiterRules, s: Seq<u8>, i: int) -> bool {
    forall|j: int| i <= j < s.len() && j >= 1 ==> pair_violation(rules, s[j - 1], #[trigger] s[j]) is None
}

proof fn lemma_pair_scan_none_inv(rules: DelimiterRules, s: Seq<u8>, n: int, j: int)
    requires
        1 <= j < n <= s.len(),
        first_pair_violation(rules, s, n) is None,
    ensures
        pair_violation(rules, s[j - 1], s[j]) is None,
    decreases n,
{
    if j < n - 1 {
        lemma_pair_scan_none_inv(rules, s, n - 1, j);
    }
}

proof fn lemma_bytewise_scan_ok(
    composition: Composition,
    rules: DelimiterRules,
    s: Seq<u8>,
    i: int,
)
    requires
        0 <= i <= s.len(),
    ensures
        bytewise_scan(composition, rules, s, i, delimiter_before(s, i)) is Ok <==> (
        all_allowed(composition, s.subrange(i, s.len() as int)) && pairs_ok_from(rules, s, i)
            && edge_violation(rules, s) is None),
    decreases s.len() - i,
{
    let rest = s.subrange(i, s.len() as int);
    if i < s.len() {
        lemma_bytewise_scan_ok(composition, rules, s, i + 1);
        let next = s.subrange(i + 1, s.len() as int);
        assert(rest[0] == s[i]);
        assert forall|j: int| 0 <= j < next.len() implies #[trigger] next[j] == rest[j + 1] by {}
        if all_allowed(composition, rest) {
            assert forall|j: int| 0 <= j < next.len() implies composition_allows(
                composition,
                #[trigger] next[j],
            ) by {
                assert(next[j] == rest[j + 1]);
            }
        }
        if composition_allows(composition, s[i]) && all_allowed(composition, next) {
            assert forall|j: int| 0 <= j < rest.len() implies composition_allows(
                composition,
                #[trigger] rest[j],
            ) by {
                if j > 0 {
                    assert(rest[j] == next[j - 1]);
                }
            }
        }
        if i >= 1 {
            if pairs_ok_from(rules, s, i) {
                assert(pair_violation(rules, s[i - 1], s[i]) is None);
            }
        }
    } else {
        assert(rest.len() == 0);
    }
}

/// The word-parallel validator and the byte-by-byte reference check accept
/// exactly the same strings; they may differ only in which error they report
/// first.
pub proof fn lemma_bulk_matches_bytewise(
    s: Seq<u8>,
    min_length: Option<usize>,
    effective_max: int,
    composition: Composition,
    rules: DelimiterRules,
)
    ensures
        validation_outcome(s, min_length, effective_max, composition, rules) is Ok
            <==> bytewise_outcome(s, min_length, effective_max, composition, rules) is Ok,
{
    lemma_bytewise_scan_ok(composition, rules, s, 0);
    assert(s.subrange(0, s.len() as int) == s);
    if first_pair_violation(rules, s, s.len() as int) is None {
        assert forall|j: int| 0 <= j < s.len() && j >= 1 implies pair_violation(
            rules,
            s[j - 1],
            #[trigger] s[j],
        ) is None by {
            lemma_pair_scan_none_inv(rules, s, s.len() as int, j);
        }
    }
    if pairs_ok_from(rules, s, 0) {
        lemma_pair_scan_none(rules, s, s.len() as int);
    }
}

} // verus!
