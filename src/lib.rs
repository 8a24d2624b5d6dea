//! Compact, case-insensitive, URL-safe identifiers packed six bits per
//! character into fixed-size byte arrays, with a configurable validator.
//!
//! - [`config`]: validation settings, compiled once per byte size.
//! - [`validate`]: length bounds, a word-parallel class pass
//!   ([`validate_swar`], [`validate_char`]) and the delimiter rules.
//! - [`encode`] and [`decode`]: the packing of four characters into three bytes.
//! - [`struct_api`]: the fixed-size [`HexaUrlCore`] value.
//! - [`laws`]: what holds across encoding, decoding and validation.

pub mod config;
pub mod decode;
pub mod encode;
pub mod error;
pub mod laws;
pub mod struct_api;
pub mod utils;
pub mod validate;
pub mod validate_char;
pub mod validate_swar;
pub mod validation_config;

pub use config::{Composition, Config};
pub use decode::{decode, decode_unchecked, decode_with_config};
pub use encode::{encode, encode_quick_checked, encode_unchecked, encode_with_config};
pub use error::{ConfigError, Error};
pub use struct_api::{
    HexaUrl, HexaUrl128, HexaUrl16, HexaUrl256, HexaUrl32, HexaUrl64, HexaUrl8, HexaUrlCore,
};
