use hexaurl::config::{compile_config, Composition, Config, DelimiterRules};
use hexaurl::validate::{
    check_encoding_safe, validate, validate_bytewise, validate_compiled, validate_minimal_config,
    validate_with_config,
};
use hexaurl::validate_char::{
    validate_alphanumeric, validate_alphanumeric_with_hyphen,
    validate_alphanumeric_with_hyphen_or_underscore, validate_alphanumeric_with_underscore,
};
use hexaurl::validate_swar::{
    validate_chunk_alnum, validate_chunk_both, validate_chunk_hyphen, validate_chunk_underscore,
};
use hexaurl::Error;

#[test]
fn test_non_ascii() {
    let result = validate::<16>("abc\u{00E9}");
    assert_eq!(result, Err(Error::InvalidCharacter));
}

#[test]
fn test_string_too_short() {
    let config = Config::builder().min_length(Some(5)).build();
    let result = validate_with_config::<16>("abcd", config);
    assert_eq!(result, Err(Error::StringTooShort(5)));
}

#[test]
fn test_string_too_long() {
    let config = Config::builder().max_length(Some(8)).build();
    let result = validate_with_config::<16>("abcdefghi", config);
    assert_eq!(result, Err(Error::StringTooLong(8)));
}

#[test]
fn test_alphanumeric_valid() {
    let config = Config::builder().composition(Composition::Alphanumeric).build();
    let result = validate_with_config::<16>("abc123", config);
    assert!(result.is_ok());
}

#[test]
fn test_alphanumeric_invalid_char() {
    let config = Config::builder().composition(Composition::Alphanumeric).build();
    let result = validate_with_config::<16>("ab-c123", config);
    assert_eq!(result, Err(Error::InvalidCharacter));
}

#[test]
fn test_alphanumeric_hyphen_valid() {
    let config = Config::builder().composition(Composition::AlphanumericHyphen).build();
    let result = validate_with_config::<16>("abc-123", config);
    assert!(result.is_ok());
}

#[test]
fn test_alphanumeric_hyphen_consecutive() {
    let config = Config::builder().composition(Composition::AlphanumericHyphen).build();
    let result = validate_with_config::<16>("abc--123", config);
    assert_eq!(result, Err(Error::ConsecutiveHyphens));
}

#[test]
fn test_leading_trailing_hyphen() {
    let result = validate::<16>("-abc123");
    assert_eq!(result, Err(Error::LeadingTrailingHyphen));

    let result2 = validate::<16>("abc123-");
    assert_eq!(result2, Err(Error::LeadingTrailingHyphen));
}

#[test]
fn test_alphanumeric_underscore_valid() {
    let config = Config::builder().composition(Composition::AlphanumericUnderscore).build();
    let result = validate_with_config::<16>("abc_123", config);
    assert!(result.is_ok());
}

#[test]
fn test_alphanumeric_underscore_consecutive() {
    let config = Config::builder().composition(Composition::AlphanumericUnderscore).build();
    let result = validate_with_config::<16>("abc__123", config);
    assert_eq!(result, Err(Error::ConsecutiveUnderscores));
}

#[test]
fn test_leading_trailing_underscore() {
    let config = Config::builder().composition(Composition::AlphanumericUnderscore).build();
    let result = validate_with_config::<16>("_abc123", config);
    assert_eq!(result, Err(Error::LeadingTrailingUnderscore));

    let result2 = validate_with_config::<16>("abc123_", config);
    assert_eq!(result2, Err(Error::LeadingTrailingUnderscore));
}

#[test]
fn test_alphanumeric_hyphen_underscore_adjacent() {
    let config = Config::builder().composition(Composition::AlphanumericHyphenUnderscore).build();
    let result = validate_with_config::<16>("abc-_123", config);
    assert_eq!(result, Err(Error::AdjacentHyphenUnderscore));
}

#[test]
fn test_validate_alphanumeric() {
    assert_eq!(validate_alphanumeric(b'0'), Ok(()));
    assert_eq!(validate_alphanumeric(b'9'), Ok(()));
    assert_eq!(validate_alphanumeric(b'A'), Ok(()));
    assert_eq!(validate_alphanumeric(b'Z'), Ok(()));
    assert_eq!(validate_alphanumeric(b'a'), Ok(()));
    assert_eq!(validate_alphanumeric(b'z'), Ok(()));

    assert_eq!(validate_alphanumeric(b'-'), Err(Error::InvalidCharacter));
    assert_eq!(validate_alphanumeric(b'_'), Err(Error::InvalidCharacter));
    assert_eq!(validate_alphanumeric(b' '), Err(Error::InvalidCharacter));
}

#[test]
fn test_validate_alphanumeric_with_hyphen() {
    assert_eq!(validate_alphanumeric_with_hyphen(b'0'), Ok(()));
    assert_eq!(validate_alphanumeric_with_hyphen(b'9'), Ok(()));
    assert_eq!(validate_alphanumeric_with_hyphen(b'A'), Ok(()));
    assert_eq!(validate_alphanumeric_with_hyphen(b'Z'), Ok(()));
    assert_eq!(validate_alphanumeric_with_hyphen(b'a'), Ok(()));
    assert_eq!(validate_alphanumeric_with_hyphen(b'z'), Ok(()));
    assert_eq!(validate_alphanumeric_with_hyphen(b'-'), Ok(()));

    assert_eq!(validate_alphanumeric_with_hyphen(b'_'), Err(Error::InvalidCharacter));
    assert_eq!(validate_alphanumeric_with_hyphen(b' '), Err(Error::InvalidCharacter));
}

#[test]
fn test_validate_alphanumeric_with_underscore() {
    assert_eq!(validate_alphanumeric_with_underscore(b'0'), Ok(()));
    assert_eq!(validate_alphanumeric_with_underscore(b'9'), Ok(()));
    assert_eq!(validate_alphanumeric_with_underscore(b'A'), Ok(()));
    assert_eq!(validate_alphanumeric_with_underscore(b'Z'), Ok(()));
    assert_eq!(validate_alphanumeric_with_underscore(b'a'), Ok(()));
    assert_eq!(validate_alphanumeric_with_underscore(b'z'), Ok(()));
    assert_eq!(validate_alphanumeric_with_underscore(b'_'), Ok(()));

    assert_eq!(validate_alphanumeric_with_underscore(b'-'), Err(Error::InvalidCharacter));
    assert_eq!(validate_alphanumeric_with_underscore(b' '), Err(Error::InvalidCharacter));
}

#[test]
fn test_validate_alphanumeric_with_hyphen_or_underscore() {
    assert_eq!(validate_alphanumeric_with_hyphen_or_underscore(b'0'), Ok(()));
    assert_eq!(validate_alphanumeric_with_hyphen_or_underscore(b'9'), Ok(()));
    assert_eq!(validate_alphanumeric_with_hyphen_or_underscore(b'A'), Ok(()));
    assert_eq!(validate_alphanumeric_with_hyphen_or_underscore(b'Z'), Ok(()));
    assert_eq!(validate_alphanumeric_with_hyphen_or_underscore(b'a'), Ok(()));
    assert_eq!(validate_alphanumeric_with_hyphen_or_underscore(b'z'), Ok(()));
    assert_eq!(validate_alphanumeric_with_hyphen_or_underscore(b'-'), Ok(()));
    assert_eq!(validate_alphanumeric_with_hyphen_or_underscore(b'_'), Ok(()));

    assert_eq!(
        validate_alphanumeric_with_hyphen_or_underscore(b' '),
        Err(Error::InvalidCharacter)
    );
}

#[test]
fn delimiter_rules_on_default_config() {
    assert_eq!(validate::<16>("-abc"), Err(Error::LeadingTrailingHyphen));
    assert_eq!(validate::<16>("ab--cd"), Err(Error::ConsecutiveHyphens));
    assert_eq!(validate::<16>("ab-cd"), Ok(()));
}

#[test]
fn mixed_composition_adjacent_delimiters() {
    let config = Config::builder().composition(Composition::AlphanumericHyphenUnderscore).build();
    assert_eq!(validate_with_config::<16>("ab-_cd", config), Err(Error::AdjacentHyphenUnderscore));
    assert_eq!(validate_with_config::<16>("ab-cd_ef", config), Ok(()));
}

#[test]
fn min_above_capacity_is_config_error() {
    let config = Config::builder().min_length(Some(20)).build();
    assert_eq!(validate_with_config::<8>("abc", config), Err(Error::InvalidConfig(10, 20)));
}

#[test]
fn lone_delimiter_reports_edge() {
    let config = Config::builder().composition(Composition::AlphanumericHyphenUnderscore).build();
    assert_eq!(validate_with_config::<16>("ab_", config), Err(Error::LeadingTrailingUnderscore));
    let config = Config::builder()
        .min_length(Some(1))
        .composition(Composition::AlphanumericHyphenUnderscore)
        .build();
    assert_eq!(validate_with_config::<16>("-", config), Err(Error::LeadingTrailingHyphen));
}

#[test]
fn permissive_rules_accept_delimiters_anywhere() {
    let config = Config::builder()
        .composition(Composition::AlphanumericHyphenUnderscore)
        .delimiter(Some(DelimiterRules::all_allowed()))
        .build();
    assert_eq!(validate_with_config::<16>("--__-_a_", config), Ok(()));
}

#[test]
fn long_inputs_cross_word_boundaries() {
    let config = Config::builder().composition(Composition::AlphanumericHyphenUnderscore).build();
    assert_eq!(validate_with_config::<32>("abcdefgh-ijklmnop_qrstuv", config), Ok(()));
    assert_eq!(validate_with_config::<32>("abcdefghijklmno!qrstuv", config), Err(Error::InvalidCharacter));
    assert_eq!(validate_with_config::<32>("abcdefghijklmnopqrs tuv", config), Err(Error::InvalidCharacter));
    assert_eq!(validate_with_config::<32>("abcdefg--hijklmnop", config), Err(Error::ConsecutiveHyphens));
}

#[test]
fn minimal_and_quick_checks() {
    assert_eq!(validate_minimal_config::<8>(""), Ok(()));
    assert_eq!(validate_minimal_config::<8>("_a--b_"), Ok(()));
    assert_eq!(validate_minimal_config::<8>("abcdefghijk"), Err(Error::StringTooLong(10)));
    assert_eq!(validate_minimal_config::<8>("a.b"), Err(Error::InvalidCharacter));
    assert_eq!(check_encoding_safe::<8>("a.b c"), Ok(()));
    assert_eq!(check_encoding_safe::<8>("ab\u{00E9}"), Err(Error::InvalidCharacter));
    assert_eq!(check_encoding_safe::<8>("abcdefghijk"), Err(Error::StringTooLong(10)));
}

#[test]
fn bulk_and_bytewise_agree() {
    let inputs = [
        "", "a", "abc", "ab-cd", "-abc", "abc-", "a--b", "a__b", "a-_b", "a_-b", "_ab", "ab_",
        "abcdefgh", "abcdefgh-", "ABCdef123", "abc def", "abc\u{00E9}", "a-b_c-d_e-f_g-h_i",
        "abcdefghijklmnopqrstu", "abcdefghijklmnopqrstuv", "x!", "12345678_",
    ];
    let compositions = [
        Composition::Alphanumeric,
        Composition::AlphanumericHyphen,
        Composition::AlphanumericUnderscore,
        Composition::AlphanumericHyphenUnderscore,
    ];
    let rule_sets = [
        None,
        Some(DelimiterRules::all_allowed()),
        Some(DelimiterRules::new(true, false, true, false, true)),
        Some(DelimiterRules::new(false, true, false, true, false)),
    ];
    for composition in compositions {
        for rules in rule_sets {
            let c = compile_config::<16>(None, None, composition, rules).unwrap();
            for input in inputs {
                let fast = validate_compiled(input, &c);
                let slow = validate_bytewise(input, &c);
                assert_eq!(fast.is_ok(), slow.is_ok(), "{input} {composition:?} {rules:?}");
            }
        }
    }
}

#[test]
fn bytewise_reports_errors_in_byte_order() {
    let c = compile_config::<16>(None, None, Composition::AlphanumericHyphen, None).unwrap();
    assert_eq!(validate_bytewise("a--b!", &c), Err(Error::ConsecutiveHyphens));
    assert_eq!(validate_compiled("a--b!", &c), Err(Error::InvalidCharacter));
}

#[test]
fn chunk_checks() {
    let w = u64::from_le_bytes(*b"ab-_cd12");
    assert_eq!(validate_chunk_both(w), (true, true, true));
    assert_eq!(validate_chunk_hyphen(w), (false, true, false));
    assert_eq!(validate_chunk_underscore(w), (false, false, true));
    assert_eq!(validate_chunk_alnum(w), (false, false, false));
    let w = u64::from_le_bytes(*b"AZaz09Mm");
    assert_eq!(validate_chunk_alnum(w), (true, false, false));
    assert_eq!(validate_chunk_both(w), (true, false, false));
    let w = u64::from_le_bytes(*b"abc@efgh");
    assert_eq!(validate_chunk_both(w).0, false);
    let w = u64::from_le_bytes(*b"abcdefg`");
    assert_eq!(validate_chunk_alnum(w).0, false);
    let w = u64::from_le_bytes(*b"-bcdefg[");
    assert_eq!(validate_chunk_hyphen(w), (false, true, false));
}
