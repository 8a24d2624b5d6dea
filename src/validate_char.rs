//! Checks of single ASCII bytes against the character classes.

use vstd::prelude::*;

use crate::config::Composition;
use crate::error::Error;

verus! {

/// The hyphen delimiter.
pub const HYPHEN: u8 = 45;

/// The underscore delimiter.
pub const UNDERSCORE: u8 = 95;

/// An ASCII digit or letter of either case.
pub open spec fn is_alnum(b: u8) -> bool {
    (48 <= b <= 57) || (65 <= b <= 90) || (97 <= b <= 122)
}

/// A hyphen or an underscore.
pub open spec fn is_delimiter(b: u8) -> bool {
    b == HYPHEN || b == UNDERSCORE
}

/// Whether the composition admits the byte.
pub open spec fn composition_allows(composition: Composition, b: u8) -> bool {
    is_alnum(b) || (b == HYPHEN && composition.spec_allows_hyphen()) || (b == UNDERSCORE
        && composition.spec_allows_underscore())
}

/// The result of checking one byte against a composition.
pub open spec fn char_result(composition: Composition, b: u8) -> Result<(), Error> {
    if composition_allows(composition, b) {
        Ok(())
    } else {
        Err(Error::InvalidCharacter)
    }
}

/// Validate that the given ASCII code is alphanumeric, hyphen, or underscore.
pub fn validate_alphanumeric_with_hyphen_or_underscore(code: u8) -> (r: Result<(), Error>)
    ensures
        r == char_result(Composition::AlphanumericHyphenUnderscore, code),
{
    if (code >= 48 && code <= 57) || (code >= 65 && code <= 90) || (code >= 97 && code <= 122)
        || code == HYPHEN || code == UNDERSCORE {
        Ok(())
    } else {
        Err(Error::InvalidCharacter)
    }
}

/// Validate that the given ASCII code is alphanumeric or underscore.
pub fn validate_alphanumeric_with_underscore(code: u8) -> (r: Result<(), Error>)
    ensures
        r == char_result(Composition::AlphanumericUnderscore, code),
{
    if (code >= 48 && code <= 57) || (code >= 65 && code <= 90) || (code >= 97 && code <= 122)
        || code == UNDERSCORE {
        Ok(())
    } else {
        Err(Error::InvalidCharacter)
    }
}

/// Validate that the given ASCII code is alphanumeric or hyphen.
pub fn validate_alphanumeric_with_hyphen(code: u8) -> (r: Result<(), Error>)
    ensures
        r == char_result(Composition::AlphanumericHyphen, code),
{
    if (code >= 48 && code <= 57) || (code >= 65 && code <= 90) || (code >= 97 && code <= 122)
        || code == HYPHEN {
        Ok(())
    } else {
        Err(Error::InvalidCharacter)
    }
}

/// Validate that the given ASCII code is alphanumeric.
pub fn validate_alphanumeric(code: u8) -> (r: Result<(), Error>)
    ensures
        r == char_result(Composition::Alphanumeric, code),
{
    if (code >= 48 && code <= 57) || (code >= 65 && code <= 90) || (code >= 97 && code <= 122) {
        Ok(())
    } else {
        Err(Error::InvalidCharacter)
    }
}

/// Validate the given ASCII code against a composition.
pub fn validate_for_composition(composition: Composition, code: u8) -> (r: Result<(), Error>)
    ensures
        r == char_result(composition, code),
{
    match composition {
        Composition::Alphanumeric => validate_alphanumeric(code),
        Composition::AlphanumericHyphen => validate_alphanumeric_with_hyphen(code),
        Composition::AlphanumericUnderscore => validate_alphanumeric_with_underscore(code),
        Composition::AlphanumericHyphenUnderscore => validate_alphanumeric_with_hyphen_or_underscore(
            code,
        ),
    }
}

} // verus!
