use vstd::prelude::*;

verus! {

/// Errors reported when validating, encoding or decoding a HexaURL.
#[derive(Debug, Clone, Copy, PartialEq, Eq, Structural)]
pub enum Error {
    /// The input string is longer than the maximum length, which is carried.
    StringTooLong(usize),
    /// The input string is shorter than the minimum length, which is carried.
    StringTooShort(usize),
    /// The input bytes exceed the maximum length, which is carried.
    BytesTooLong(usize),
    /// The input bytes are below the minimum length, which is carried.
    BytesTooShort(usize),
    /// The input holds a character outside the allowed alphabet.
    InvalidCharacter,
    /// The input holds a byte outside the allowed alphabet.
    InvalidByte,
    /// The input length does not fit this HexaURL size.
    InvalidLength,
    /// The configuration is contradictory: the effective maximum length
    /// (first) is below the minimum length (second).
    InvalidConfig(usize, usize),
    /// A hyphen starts or ends the input, which the rules forbid.
    LeadingTrailingHyphen,
    /// An underscore starts or ends the input, which the rules forbid.
    LeadingTrailingUnderscore,
    /// Two hyphens stand next to each other, which the rules forbid.
    ConsecutiveHyphens,
    /// Two underscores stand next to each other, which the rules forbid.
    ConsecutiveUnderscores,
    /// A hyphen stands next to an underscore, which the rules forbid.
    AdjacentHyphenUnderscore,
}

/// Errors reported when compiling a configuration for a fixed byte size.
#[derive(Debug, Clone, Copy, PartialEq, Eq, Structural)]
pub enum ConfigError {
    /// The user minimum (first) exceeds the user maximum (second).
    InvalidLengthRange(usize, usize),
    /// The user minimum (first) exceeds the effective maximum (second), that is
    /// the user maximum clamped to what the byte size can hold.
    InvalidCompiledLengthRange(usize, usize),
}

} // verus!
