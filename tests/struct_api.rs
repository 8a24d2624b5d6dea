use hexaurl::config::Config;
use hexaurl::struct_api::{
    HexaUrl, HexaUrl128, HexaUrl16, HexaUrl256, HexaUrl32, HexaUrl64, HexaUrl8, HexaUrlCore,
};
use hexaurl::Error;
use std::collections::{BTreeMap, HashMap};

#[test]
fn test_hexaurl8() {
    let url = HexaUrl8::new("hello").unwrap();
    assert_eq!(url.to_string(), "hello");
    assert_eq!(HexaUrl8::capacity(), 10);
}

#[test]
fn test_hexaurl16() {
    let url = HexaUrl16::new("hello").unwrap();
    assert_eq!(url.to_string(), "hello");
    assert_eq!(HexaUrl16::capacity(), 21);
}

#[test]
fn test_hexaurl() {
    let url = HexaUrl::new("hello").unwrap();
    assert_eq!(url.to_string(), "hello");
    assert_eq!(HexaUrl::capacity(), 21);
}

#[test]
fn test_hexaurl32() {
    let url = HexaUrl32::new("hello").unwrap();
    assert_eq!(url.to_string(), "hello");
    assert_eq!(HexaUrl32::capacity(), 42);
}

#[test]
fn test_hexaurl64() {
    let url = HexaUrl64::new("hello").unwrap();
    assert_eq!(url.to_string(), "hello");
    assert_eq!(HexaUrl64::capacity(), 85);
}

#[test]
fn test_hexaurl128() {
    let url = HexaUrl128::new("hello").unwrap();
    assert_eq!(url.to_string(), "hello");
    assert_eq!(HexaUrl128::capacity(), 170);
}

#[test]
fn test_hexaurl256() {
    let url = HexaUrl256::new("hello").unwrap();
    assert_eq!(url.to_string(), "hello");
    assert_eq!(HexaUrl256::capacity(), 341);
}

#[test]
fn test_encode_decode() {
    let input = "hello";
    let hexaurl = HexaUrlCore::<16, 21>::new(input).unwrap();
    let decoded = hexaurl.decode().unwrap();
    assert_eq!(input, decoded);
}

#[test]
fn test_encode_decode_minimal() {
    let input = "hello";
    let hexaurl = HexaUrlCore::<16, 21>::new_minimal_config(input).unwrap();
    let decoded = hexaurl.decode().unwrap();
    assert_eq!(input, decoded);
}

#[test]
fn test_encode_decode_unchecked() {
    let input = "hello";
    let hexaurl = HexaUrlCore::<16, 21>::new_unchecked(input);
    let decoded = hexaurl.decode_unchecked();
    assert_eq!(input, decoded);
}

#[test]
fn test_hash() {
    let input = "hello";
    let hexaurl = HexaUrlCore::<16, 21>::new(input).unwrap();
    let mut map = HashMap::new();
    map.insert(hexaurl, input);
    assert_eq!(map.get(&hexaurl), Some(&input));
}

#[test]
fn test_btree_map() {
    let input = "hello";
    let hexaurl = HexaUrlCore::<16, 21>::new(input).unwrap();
    let mut map = BTreeMap::new();
    map.insert(hexaurl, input);
    assert_eq!(map.get(&hexaurl), Some(&input));
}

#[test]
fn test_ordering() {
    let input1 = "hello";
    let input2 = "world";
    let hexaurl1 = HexaUrlCore::<16, 21>::new(input1).unwrap();
    let hexaurl2 = HexaUrlCore::<16, 21>::new(input2).unwrap();
    assert!(hexaurl1 < hexaurl2);
    assert_eq!(hexaurl1 < hexaurl2, input1 < input2);
}

#[test]
fn test_try_from_bytes_success() {
    let input = "hello";
    let hexaurl = HexaUrlCore::<16, 21>::new(input).unwrap();
    let bytes = hexaurl.as_bytes();
    let hexaurl_copy = HexaUrlCore::<16, 21>::try_from(&bytes[..]).unwrap();
    assert_eq!(hexaurl, hexaurl_copy);
}

#[test]
fn test_try_from_bytes_invalid_length() {
    let bytes = [0u8; 15];
    let result = HexaUrlCore::<16, 21>::try_from(&bytes[..]);
    assert!(result.is_err());
}

#[test]
fn test_new_with_config() {
    let input = "hello";
    let config = Config::minimal();
    let hexaurl = HexaUrlCore::<16, 21>::new_with_config(input, config).unwrap();
    let decoded = hexaurl.decode_with_config(config).unwrap();
    assert_eq!(input, decoded);
}

#[test]
fn test_len() {
    let empty = HexaUrlCore::<16, 21>::new_minimal_config("").unwrap();
    assert_eq!(empty.len(), 0);

    let input = "hello";
    let hexaurl = HexaUrlCore::<16, 21>::new(input).unwrap();
    assert_eq!(hexaurl.len(), input.len());

    let long_input = "hello-world";
    let long_hexaurl = HexaUrlCore::<16, 21>::new(long_input).unwrap();
    assert_eq!(long_hexaurl.len(), long_input.len());
}

#[test]
fn test_resize_larger() {
    let input = "hello";
    let small = HexaUrlCore::<8, 10>::new(input).unwrap();
    let large = small.resize::<16, 21>();
    assert_eq!(large.decode().unwrap(), input);
}

#[test]
fn test_resize_smaller() {
    let input = "hello-world";
    let large = HexaUrlCore::<16, 21>::new(input).unwrap();
    let small = large.resize::<8, 10>();
    assert_eq!(small.decode().unwrap(), "hello-worl");
}

#[test]
fn test_reallocate_larger() {
    let input = "hello";
    let small = HexaUrlCore::<8, 10>::new(input).unwrap();
    let large = small.reallocate::<16, 21>().unwrap();
    assert_eq!(large.decode().unwrap(), input);
}

#[test]
fn test_reallocate_smaller() {
    let input = "hello";
    let large = HexaUrlCore::<16, 21>::new(input).unwrap();
    let small = large.reallocate::<8, 10>().unwrap();
    assert_eq!(small.decode().unwrap(), input);
}

#[test]
fn test_reallocate_too_large() {
    let input = "hello-world";
    let large = HexaUrlCore::<16, 21>::new(input).unwrap();
    assert!(large.reallocate::<8, 10>().is_none());
}

#[test]
fn test_try_from_string() {
    let input = String::from("hello");
    let hexaurl1 = HexaUrlCore::<16, 21>::try_from(input.clone()).unwrap();
    let hexaurl2 = HexaUrlCore::<16, 21>::try_from(&input).unwrap();
    assert_eq!(hexaurl1, hexaurl2);
}

#[test]
fn test_as_ref() {
    let input = "hello";
    let hexaurl = HexaUrlCore::<16, 21>::new(input).unwrap();
    let _: &[u8; 16] = hexaurl.as_ref();
    let _: &[u8] = hexaurl.as_ref();
}

#[test]
fn test_display() {
    let input = "hello";
    let hexaurl = HexaUrlCore::<16, 21>::new(input).unwrap();
    assert_eq!(hexaurl.to_string(), input);
}

#[test]
fn test_try_from_array() {
    let input = "hello";
    let hexaurl = HexaUrlCore::<16, 21>::new(input).unwrap();
    let bytes = *hexaurl.as_bytes();
    let hexaurl2 = HexaUrlCore::<16, 21>::try_from(bytes).unwrap();
    assert_eq!(hexaurl, hexaurl2);
}

#[test]
fn test_try_from_array_ref() {
    let input = "hello";
    let hexaurl = HexaUrlCore::<16, 21>::new(input).unwrap();
    let bytes = hexaurl.as_bytes();
    let hexaurl2 = HexaUrlCore::<16, 21>::try_from(bytes).unwrap();
    assert_eq!(hexaurl, hexaurl2);
}

#[test]
fn len_for_every_remainder() {
    let minimal = Config::minimal();
    for s in ["a", "a0", "a0_", "a0_z", "a0_z-", "0", "00", "000", "0000", "00000", "_", "__", "___"] {
        let h = HexaUrlCore::<8, 10>::new_with_config(s, minimal).unwrap();
        assert_eq!(h.len(), s.len(), "{s}");
    }
    let full = HexaUrlCore::<8, 10>::new_with_config("abcdefghij", minimal).unwrap();
    assert_eq!(full.len(), 10);
}

#[test]
fn empty_and_byte_access() {
    let empty = HexaUrlCore::<8, 10>::new_minimal_config("").unwrap();
    assert!(empty.is_empty());
    let h = HexaUrlCore::<8, 10>::new("abc").unwrap();
    assert!(!h.is_empty());
    assert_eq!(HexaUrlCore::<8, 10>::from_slice(h.as_bytes()), h);
}

#[test]
fn try_from_bytes_rejects_corruption() {
    let bytes = [6u8, 16, 0, 0, 0, 0, 0, 0];
    assert_eq!(HexaUrlCore::<8, 10>::try_from_bytes(&bytes), Err(Error::InvalidCharacter));
    let bytes = [0u8; 8];
    assert_eq!(HexaUrlCore::<8, 10>::try_from_bytes(&bytes).unwrap().len(), 0);
}

#[test]
fn mismatched_sizes_are_rejected() {
    let bytes = [0u8; 8];
    assert_eq!(HexaUrlCore::<8, 11>::try_from(bytes), Err(Error::InvalidLength));
}

#[test]
fn quick_and_checked_constructors() {
    assert_eq!(HexaUrlCore::<8, 10>::new("ab"), Err(Error::StringTooShort(3)));
    assert_eq!(HexaUrlCore::<8, 10>::new_quick("a b").unwrap().len(), 3);
    assert_eq!(HexaUrlCore::<8, 10>::new_quick("abcdefghijk"), Err(Error::StringTooLong(10)));
}
