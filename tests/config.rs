use hexaurl::config::{
    compile_config, Composition, Config, ConfigBuilder, DelimiterRules, DelimiterRulesBuilder,
};
use hexaurl::validation_config::{
    DelimiterRulesBuilder as ByteDelimiterRulesBuilder, IdentifierComposition, ValidationConfigBuilder,
};
use hexaurl::ConfigError;

#[test]
fn lib_test_validation_config_builder_custom_values() {
    let delimiter = DelimiterRulesBuilder::new()
        .allow_leading_trailing_underscores(true)
        .allow_consecutive_hyphens(true)
        .build();

    let vc = Config::builder()
        .min_length(Some(4))
        .max_length(Some(12))
        .composition(Composition::AlphanumericHyphenUnderscore)
        .delimiter(Some(delimiter))
        .build();

    assert_eq!(vc.min_length(), Some(4));
    assert_eq!(vc.max_length(), Some(12));
    assert_eq!(vc.composition(), Composition::AlphanumericHyphenUnderscore);
    assert!(vc.delimiter().unwrap().allow_consecutive_hyphens());
    assert!(vc.delimiter().unwrap().allow_leading_trailing_underscores());
}

#[test]
fn test_validation_config_builder_defaults() {
    let vc = ValidationConfigBuilder::new().build();
    assert_eq!(vc.min_length(), Some(3));
    assert_eq!(vc.identifier(), IdentifierComposition::AlphanumericHyphen);
    assert!(vc.delimiter().is_none());
}

#[test]
fn validate_test_validation_config_builder_custom_values() {
    let delimiter = ByteDelimiterRulesBuilder::new()
        .allow_leading_trailing_underscores(true)
        .allow_consecutive_hyphens(true)
        .build();

    let vc = ValidationConfigBuilder::new()
        .min_length(Some(4))
        .max_length(Some(12))
        .identifier(IdentifierComposition::AlphanumericHyphenUnderscore)
        .delimiter(Some(delimiter))
        .build();

    assert_eq!(vc.min_length(), Some(4));
    assert_eq!(vc.max_length(), Some(12));
    assert_eq!(vc.identifier(), IdentifierComposition::AlphanumericHyphenUnderscore);
    assert!(vc.delimiter().unwrap().allow_consecutive_hyphens());
    assert!(vc.delimiter().unwrap().allow_leading_trailing_underscores());
}

#[test]
fn config_defaults_and_minimal() {
    let d = Config::default();
    assert_eq!(d.min_length(), Some(3));
    assert_eq!(d.max_length(), None);
    assert_eq!(d.composition(), Composition::AlphanumericHyphen);
    assert_eq!(d.delimiter(), None);
    assert_eq!(ConfigBuilder::new().build(), d);
    let m = Config::minimal();
    assert_eq!(m.min_length(), None);
    assert_eq!(m.composition(), Composition::AlphanumericHyphenUnderscore);
    assert_eq!(m.delimiter(), Some(DelimiterRules::all_allowed()));
    assert_eq!(DelimiterRules::default(), DelimiterRules::new(false, false, false, false, false));
    assert_eq!(DelimiterRules::builder().build(), DelimiterRules::default());
}

#[test]
fn compile_clamps_to_capacity() {
    let c = compile_config::<16>(Some(2), Some(30), Composition::AlphanumericHyphen, None).unwrap();
    assert_eq!(c.effective_max, 21);
    let c = compile_config::<16>(None, Some(8), Composition::AlphanumericHyphen, None).unwrap();
    assert_eq!(c.effective_max, 8);
    assert!(c.allow_hyphen);
    assert!(!c.allow_underscore);
    assert!(c.needs_delimiter_pass);
    let c = compile_config::<16>(
        None,
        None,
        Composition::AlphanumericHyphenUnderscore,
        Some(DelimiterRules::all_allowed()),
    )
    .unwrap();
    assert!(!c.needs_delimiter_pass);
    let c = compile_config::<16>(None, None, Composition::Alphanumeric, None).unwrap();
    assert!(!c.needs_delimiter_pass);
}

#[test]
fn compile_fails_when_min_exceeds_capacity() {
    let r = compile_config::<8>(Some(20), None, Composition::AlphanumericHyphen, None);
    assert_eq!(r.unwrap_err(), ConfigError::InvalidCompiledLengthRange(20, 10));
}

#[test]
fn compile_fails_when_min_exceeds_max() {
    let r = compile_config::<16>(Some(5), Some(3), Composition::AlphanumericHyphen, None);
    assert_eq!(r.unwrap_err(), ConfigError::InvalidLengthRange(5, 3));
}

#[test]
fn calc_str_len_values() {
    assert_eq!(hexaurl::config::calc_str_len(8), 10);
    assert_eq!(hexaurl::config::calc_str_len(9), 12);
    assert_eq!(hexaurl::config::calc_str_len(16), 21);
    assert_eq!(hexaurl::config::calc_str_len(256), 341);
    assert_eq!(hexaurl::config::calc_str_len(0), 0);
}
