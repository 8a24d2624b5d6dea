use hexaurl::config::{Composition, Config, DelimiterRules};
use hexaurl::{
    decode, decode_unchecked, decode_with_config, encode, encode_quick_checked, encode_unchecked,
    encode_with_config, Error,
};

#[test]
fn test_encode_and_decode() {
    let original = "hello-hexaurl";
    let encoded: [u8; 16] = encode(original).expect("Encoding failed");
    let decoded = decode::<16, 21>(&encoded).expect("Decoding failed");
    assert_eq!(original, decoded);
}

#[test]
fn test_encode_and_decode_with_config() {
    let original = "Test-Config";
    let config = Config::default();
    let encoded: [u8; 16] = encode(original).expect("Encoding failed");
    let decoded =
        decode_with_config::<16, 21>(&encoded, config).expect("Decoding with config failed");
    assert_eq!(original.to_ascii_lowercase(), decoded);
}

#[test]
fn test_decode_unchecked() {
    let original = "Unchecked-Test";
    let encoded: [u8; 16] = encode(original).expect("Encoding failed");
    let decoded = decode_unchecked::<16, 21>(&encoded);
    assert_eq!(original.to_ascii_lowercase(), decoded);
}

#[test]
fn test_encode_valid_input() {
    let input = "hello";
    let encoded = encode::<16>(input).unwrap();
    assert_eq!(encoded.len(), 16);
}

#[test]
fn test_encode_with_config() {
    let input = "world";
    let config = Config::default();
    let encoded = encode_with_config::<16>(input, config).unwrap();
    assert_eq!(encoded.len(), 16);
}

#[test]
fn test_encode_quick_checked_valid() {
    let input = "test";
    let encoded_opt = encode_quick_checked::<16>(input);
    assert!(encoded_opt.is_ok());
    let encoded = encoded_opt.unwrap();
    assert_eq!(encoded.len(), 16);
}

#[test]
fn test_encode_quick_checked_invalid() {
    let input = "invalid😃";
    let encoded_opt = encode_quick_checked::<16>(input);
    assert!(encoded_opt.is_err());
}

#[test]
fn test_encode_unchecked() {
    let input = "abcABC";
    let encoded = encode_unchecked::<16>(input);
    assert_eq!(encoded.len(), 16);
}

#[test]
fn test_encode_valid_non16() {
    let input = "test";
    let encoded = encode::<12>(input).unwrap();
    assert_eq!(encoded.len(), 12);

    let input2 = "hello-world";
    let encoded2 = encode::<20>(input2).unwrap();
    assert_eq!(encoded2.len(), 20);
}

#[test]
fn test_encode_with_config_non16() {
    let input = "world";
    let config = Config::default();
    let encoded = encode_with_config::<12>(input, config).unwrap();
    assert_eq!(encoded.len(), 12);
}

#[test]
fn test_encode_quick_checked_non16() {
    let input = "abc";
    let encoded_opt = encode_quick_checked::<9>(input);
    assert!(encoded_opt.is_ok());
    let encoded = encoded_opt.unwrap();
    assert_eq!(encoded.len(), 9);
}

#[test]
fn packed_bytes_of_hello() {
    let encoded = encode::<8>("hello").unwrap();
    assert_eq!(encoded, [162, 91, 44, 188, 0, 0, 0, 0]);
    let encoded = encode::<4>("HeLLo").unwrap();
    assert_eq!(encoded, [162, 91, 44, 188]);
}

#[test]
fn packed_bytes_of_partial_groups() {
    let minimal = Config::minimal();
    // '-' = 13, '0' = 16, '_' = 63, 'z' = 58
    assert_eq!(encode_with_config::<4>("-", minimal).unwrap(), [52, 0, 0, 0]);
    assert_eq!(encode_with_config::<4>("-0", minimal).unwrap(), [53, 0, 0, 0]);
    assert_eq!(encode_with_config::<4>("-0_", minimal).unwrap(), [53, 15, 192, 0]);
    assert_eq!(encode_with_config::<4>("-0_z", minimal).unwrap(), [53, 15, 250, 0]);
}

#[test]
fn round_trip_folds_case() {
    let config = Config::builder().composition(Composition::AlphanumericHyphenUnderscore).build();
    for s in ["abc", "Hello_World-42", "ZZZ", "a1b2c3d4e5f6g7h8i9j0k"] {
        let bytes = encode_with_config::<16>(s, config).unwrap();
        let back = decode_with_config::<16, 21>(&bytes, config).unwrap();
        assert_eq!(back, s.to_ascii_lowercase());
    }
}

#[test]
fn case_fold_gives_same_bytes() {
    assert_eq!(encode::<16>("HeLLo-WoRlD").unwrap(), encode::<16>("hello-world").unwrap());
    assert_eq!(encode::<8>("ABC").unwrap(), encode::<8>("abc").unwrap());
}

#[test]
fn capacity_boundary_for_sixteen_bytes() {
    let exact = "abcdefghijklmnopqrstu";
    assert_eq!(exact.len(), 21);
    let bytes = encode::<16>(exact).unwrap();
    assert_eq!(decode::<16, 21>(&bytes).unwrap(), exact);
    let longer = "abcdefghijklmnopqrstuv";
    assert_eq!(encode::<16>(longer), Err(Error::StringTooLong(21)));
}

#[test]
fn capacity_boundary_for_eight_bytes() {
    let bytes = encode::<8>("abcdefghij").unwrap();
    assert_eq!(decode::<8, 10>(&bytes).unwrap(), "abcdefghij");
    assert_eq!(encode::<8>("abcdefghijk"), Err(Error::StringTooLong(10)));
}

#[test]
fn empty_string_and_zero_bytes() {
    let minimal = Config::minimal();
    assert_eq!(encode_with_config::<16>("", minimal).unwrap(), [0u8; 16]);
    assert_eq!(decode_unchecked::<16, 21>(&[0u8; 16]), "");
    assert_eq!(decode_with_config::<16, 21>(&[0u8; 16], minimal).unwrap(), "");
    assert_eq!(decode::<16, 21>(&[0u8; 16]), Err(Error::StringTooShort(3)));
}

#[test]
fn encoding_keeps_order() {
    let minimal = Config::minimal();
    let pairs = [("abc", "abd"), ("ab", "abc"), ("-a", "0a"), ("9", "a"), ("a-b", "a0b"), ("z", "z0")];
    for (a, b) in pairs {
        let ea = encode_with_config::<16>(a, minimal).unwrap();
        let eb = encode_with_config::<16>(b, minimal).unwrap();
        assert!(ea < eb, "{a} {b}");
    }
}

#[test]
fn underscore_sorts_after_letters_when_packed() {
    let minimal = Config::minimal();
    let ea = encode_with_config::<16>("_", minimal).unwrap();
    let eb = encode_with_config::<16>("a", minimal).unwrap();
    assert!("_" < "a");
    assert!(ea > eb);
}

#[test]
fn corrupted_bytes_fail_checked_decode() {
    // Code 1 is outside the alphabet and decodes to a zero byte, here before an 'a'.
    let bytes = [6u8, 16, 0, 0, 0, 0, 0, 0, 0, 0, 0, 0, 0, 0, 0, 0];
    assert_eq!(decode_unchecked::<16, 21>(&bytes), "\0a");
    let minimal = Config::minimal();
    assert_eq!(decode_with_config::<16, 21>(&bytes, minimal), Err(Error::InvalidCharacter));
    let bytes = [132u8, 0, 33, 0, 0, 0, 0, 0, 0, 0, 0, 0, 0, 0, 0, 0];
    assert_eq!(decode_with_config::<16, 21>(&bytes, minimal), Err(Error::InvalidCharacter));
}

#[test]
fn quick_check_errors() {
    assert_eq!(encode_quick_checked::<8>("abcdefghijk"), Err(Error::StringTooLong(10)));
    assert_eq!(encode_quick_checked::<8>("ab\u{00E9}"), Err(Error::InvalidCharacter));
    // ASCII outside the alphabet packs as code 0.
    assert_eq!(encode_quick_checked::<4>("a.").unwrap(), [132, 0, 0, 0]);
}

#[test]
fn checked_encode_reports_rule_errors() {
    let rules = DelimiterRules::new(true, true, true, true, false);
    let config = Config::builder()
        .composition(Composition::AlphanumericHyphenUnderscore)
        .delimiter(Some(rules))
        .build();
    assert!(encode_with_config::<16>("-a--b__c_", config).is_ok());
    assert_eq!(encode_with_config::<16>("a_-b", config), Err(Error::AdjacentHyphenUnderscore));
}
