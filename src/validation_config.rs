//! Validation settings with lengths held in a byte, with their builders.

use vstd::prelude::*;

verus! {

/// Configuration for validation rules, with lengths of at most 255.
#[derive(Clone, Copy, PartialEq, Eq, PartialOrd, Ord, Hash, Debug, Structural)]
pub struct ValidationConfig {
    pub min_length: Option<u8>,
    pub max_length: Option<u8>,
    pub identifier: IdentifierComposition,
    pub delimiter: Option<DelimiterRules>,
}

impl ValidationConfig {
    /// The default configuration: at least three characters, letters, digits
    /// and hyphens, and no delimiter rules given.
    pub open spec fn spec_default() -> ValidationConfig {
        ValidationConfig {
            min_length: Some(3),
            max_length: None,
            identifier: IdentifierComposition::AlphanumericHyphen,
            delimiter: None,
        }
    }

    /// Constructs a new validation configuration.
    pub fn new(
        min_length: Option<u8>,
        max_length: Option<u8>,
        identifier: IdentifierComposition,
        delimiter: Option<DelimiterRules>,
    ) -> (r: Self)
        ensures
            r == (ValidationConfig { min_length, max_length, identifier, delimiter }),
    {
        ValidationConfig { min_length, max_length, identifier, delimiter }
    }

    /// Creates a new builder for validation config.
    pub fn builder() -> (r: ValidationConfigBuilder)
        ensures
            r == ValidationConfigBuilder::spec_empty(),
    {
        ValidationConfigBuilder::new()
    }

    /// Returns the minimum allowed length.
    pub fn min_length(&self) -> (r: Option<u8>)
        ensures
            r == self.min_length,
    {
        self.min_length
    }

    /// Returns the maximum allowed length.
    pub fn max_length(&self) -> (r: Option<u8>)
        ensures
            r == self.max_length,
    {
        self.max_length
    }

    /// Returns the identifier composition rule.
    pub fn identifier(&self) -> (r: IdentifierComposition)
        ensures
            r == self.identifier,
    {
        self.identifier
    }

    /// Returns the delimiter rules, if any.
    pub fn delimiter(&self) -> (r: Option<DelimiterRules>)
        ensures
            r == self.delimiter,
    {
        self.delimiter
    }
}

impl Default for ValidationConfig {
    fn default() -> (r: Self)
        ensures
            r == Self::spec_default(),
    {
        ValidationConfig {
            min_length: Some(3),
            max_length: None,
            identifier: IdentifierComposition::AlphanumericHyphen,
            delimiter: None,
        }
    }
}

/// Builder for [`ValidationConfig`]; what is left unset takes the default.
pub struct ValidationConfigBuilder {
    pub min_length: Option<u8>,
    pub max_length: Option<u8>,
    pub identifier: Option<IdentifierComposition>,
    pub delimiter: Option<DelimiterRules>,
}

impl ValidationConfigBuilder {
    /// A builder with nothing set.
    pub open spec fn spec_empty() -> ValidationConfigBuilder {
        ValidationConfigBuilder {
            min_length: None,
            max_length: None,
            identifier: None,
            delimiter: None,
        }
    }

    /// Creates a new builder for validation config.
    pub fn new() -> (r: Self)
        ensures
            r == Self::spec_empty(),
    {
        ValidationConfigBuilder {
            min_length: None,
            max_length: None,
            identifier: None,
            delimiter: None,
        }
    }

    /// Sets the minimum allowed length.
    pub fn min_length(self, min: Option<u8>) -> (r: Self)
        ensures
            r == (ValidationConfigBuilder { min_length: min, ..self }),
    {
        ValidationConfigBuilder { min_length: min, ..self }
    }

    /// Sets the maximum allowed length.
    pub fn max_length(self, max: Option<u8>) -> (r: Self)
        ensures
            r == (ValidationConfigBuilder { max_length: max, ..self }),
    {
        ValidationConfigBuilder { max_length: max, ..self }
    }

    /// Sets the identifier composition.
    pub fn identifier(self, identifier: IdentifierComposition) -> (r: Self)
        ensures
            r == (ValidationConfigBuilder { identifier: Some(identifier), ..self }),
    {
        ValidationConfigBuilder { identifier: Some(identifier), ..self }
    }

    /// Sets the delimiter rules.
    pub fn delimiter(self, delimiter: Option<DelimiterRules>) -> (r: Self)
        ensures
            r == (ValidationConfigBuilder { delimiter, ..self }),
    {
        ValidationConfigBuilder { delimiter, ..self }
    }

    /// Builds the [`ValidationConfig`]; missing values take their defaults.
    pub fn build(self) -> (r: ValidationConfig)
        ensures
            r.min_length == (if self.min_length is Some {
                self.min_length
            } else {
                Some(3u8)
            }),
            r.max_length == self.max_length,
            r.identifier == (if self.identifier is Some {
                self.identifier->0
            } else {
                IdentifierComposition::AlphanumericHyphen
            }),
            r.delimiter == self.delimiter,
    {
        let defaults = ValidationConfig::default();
        ValidationConfig {
            min_length: match self.min_length {
                Some(min) => Some(min),
                None => defaults.min_length,
            },
            max_length: match self.max_length {
                Some(max) => Some(max),
                None => defaults.max_length,
            },
            identifier: match self.identifier {
                Some(identifier) => identifier,
                None => IdentifierComposition::default(),
            },
            delimiter: self.delimiter,
        }
    }
}

impl Default for ValidationConfigBuilder {
    fn default() -> (r: Self)
        ensures
            r == Self::spec_empty(),
    {
        ValidationConfigBuilder::new()
    }
}

/// Which character classes an identifier may hold.
#[derive(Clone, Copy, PartialEq, Eq, PartialOrd, Ord, Hash, Debug, Structural)]
pub enum IdentifierComposition {
    /// Letters and digits.
    Alphanumeric,
    /// Letters, digits and hyphen.
    AlphanumericHyphen,
    /// Letters, digits and underscore.
    AlphanumericUnderscore,
    /// Letters, digits, hyphen and underscore.
    AlphanumericHyphenUnderscore,
}

impl Default for IdentifierComposition {
    fn default() -> (r: Self)
        ensures
            r == IdentifierComposition::AlphanumericHyphen,
    {
        IdentifierComposition::AlphanumericHyphen
    }
}

/// Placement rules for hyphens and underscores. Each flag says whether the
/// placement is allowed; a leading and a trailing delimiter share one flag.
#[derive(Clone, Copy, PartialEq, Eq, PartialOrd, Ord, Hash, Debug, Structural)]
pub struct DelimiterRules {
    pub allow_leading_trailing_hyphens: bool,
    pub allow_leading_trailing_underscores: bool,
    pub allow_consecutive_hyphens: bool,
    pub allow_consecutive_underscores: bool,
    pub allow_adjacent_hyphen_underscore: bool,
}

impl DelimiterRules {
    /// The rules that forbid every delimiter placement.
    pub open spec fn spec_none_allowed() -> DelimiterRules {
        DelimiterRules {
            allow_leading_trailing_hyphens: false,
            allow_leading_trailing_underscores: false,
            allow_consecutive_hyphens: false,
            allow_consecutive_underscores: false,
            allow_adjacent_hyphen_underscore: false,
        }
    }

    /// The rules that allow every delimiter placement.
    pub open spec fn spec_all_allowed() -> DelimiterRules {
        DelimiterRules {
            allow_leading_trailing_hyphens: true,
            allow_leading_trailing_underscores: true,
            allow_consecutive_hyphens: true,
            allow_consecutive_underscores: true,
            allow_adjacent_hyphen_underscore: true,
        }
    }

    /// Creates a new set of delimiter rules.
    pub fn new(
        allow_leading_trailing_hyphens: bool,
        allow_leading_trailing_underscores: bool,
        allow_consecutive_hyphens: bool,
        allow_consecutive_underscores: bool,
        allow_adjacent_hyphen_underscore: bool,
    ) -> (r: Self)
        ensures
            r.allow_leading_trailing_hyphens == allow_leading_trailing_hyphens,
            r.allow_leading_trailing_underscores == allow_leading_trailing_underscores,
            r.allow_consecutive_hyphens == allow_consecutive_hyphens,
            r.allow_consecutive_underscores == allow_consecutive_underscores,
            r.allow_adjacent_hyphen_underscore == allow_adjacent_hyphen_underscore,
    {
        DelimiterRules {
            allow_leading_trailing_hyphens,
            allow_leading_trailing_underscores,
            allow_consecutive_hyphens,
            allow_consecutive_underscores,
            allow_adjacent_hyphen_underscore,
        }
    }

    /// Creates a new set of delimiter rules with all rules allowed.
    pub fn all_allowed() -> (r: Self)
        ensures
            r == Self::spec_all_allowed(),
    {
        DelimiterRules {
            allow_leading_trailing_hyphens: true,
            allow_leading_trailing_underscores: true,
            allow_consecutive_hyphens: true,
            allow_consecutive_underscores: true,
            allow_adjacent_hyphen_underscore: true,
        }
    }

    /// Creates a new builder for delimiter rules.
    pub fn builder() -> (r: DelimiterRulesBuilder)
        ensures
            r == DelimiterRulesBuilder::spec_empty(),
    {
        DelimiterRulesBuilder::new()
    }

    /// Whether leading and trailing hyphens are allowed.
    pub fn allow_leading_trailing_hyphens(&self) -> (r: bool)
        ensures
            r == self.allow_leading_trailing_hyphens,
    {
        self.allow_leading_trailing_hyphens
    }

    /// Whether leading and trailing underscores are allowed.
    pub fn allow_leading_trailing_underscores(&self) -> (r: bool)
        ensures
            r == self.allow_leading_trailing_underscores,
    {
        self.allow_leading_trailing_underscores
    }

    /// Whether consecutive hyphens are allowed.
    pub fn allow_consecutive_hyphens(&self) -> (r: bool)
        ensures
            r == self.allow_consecutive_hyphens,
    {
        self.allow_consecutive_hyphens
    }

    /// Whether consecutive underscores are allowed.
    pub fn allow_consecutive_underscores(&self) -> (r: bool)
        ensures
            r == self.allow_consecutive_underscores,
    {
        self.allow_consecutive_underscores
    }

    /// Whether a hyphen and an underscore can be adjacent.
    pub fn allow_adjacent_hyphen_underscore(&self) -> (r: bool)
        ensures
            r == self.allow_adjacent_hyphen_underscore,
    {
        self.allow_adjacent_hyphen_underscore
    }
}

impl Default for DelimiterRules {
    fn default() -> (r: Self)
        ensures
            r == Self::spec_none_allowed(),
    {
        DelimiterRules::new(false, false, false, false, false)
    }
}

/// Builder for [`DelimiterRules`]; a rule left unset is not allowed.
pub struct DelimiterRulesBuilder {
    pub allow_leading_trailing_hyphens: Option<bool>,
    pub allow_leading_trailing_underscores: Option<bool>,
    pub allow_consecutive_hyphens: Option<bool>,
    pub allow_consecutive_underscores: Option<bool>,
    pub allow_adjacent_hyphen_underscore: Option<bool>,
}

/// The value of a rule that may have been left unset.
pub open spec fn rule_or_false(rule: Option<bool>) -> bool {
    match rule {
        Some(b) => b,
        None => false,
    }
}

impl DelimiterRulesBuilder {
    /// A builder with no rule set.
    pub open spec fn spec_empty() -> DelimiterRulesBuilder {
        DelimiterRulesBuilder {
            allow_leading_trailing_hyphens: None,
            allow_leading_trailing_underscores: None,
            allow_consecutive_hyphens: None,
            allow_consecutive_underscores: None,
            allow_adjacent_hyphen_underscore: None,
        }
    }

    /// Creates a new builder for delimiter rules.
    pub fn new() -> (r: Self)
        ensures
            r == Self::spec_empty(),
    {
        DelimiterRulesBuilder {
            allow_leading_trailing_hyphens: None,
            allow_leading_trailing_underscores: None,
            allow_consecutive_hyphens: None,
            allow_consecutive_underscores: None,
            allow_adjacent_hyphen_underscore: None,
        }
    }

    /// Sets whether leading and trailing hyphens are allowed.
    pub fn allow_leading_trailing_hyphens(self, allow: bool) -> (r: Self)
        ensures
            r == (DelimiterRulesBuilder { allow_leading_trailing_hyphens: Some(allow), ..self }),
    {
        DelimiterRulesBuilder { allow_leading_trailing_hyphens: Some(allow), ..self }
    }

    /// Sets whether leading and trailing underscores are allowed.
    pub fn allow_leading_trailing_underscores(self, allow: bool) -> (r: Self)
        ensures
            r == (DelimiterRulesBuilder { allow_leading_trailing_underscores: Some(allow), ..self }),
    {
        DelimiterRulesBuilder { allow_leading_trailing_underscores: Some(allow), ..self }
    }

    /// Sets whether consecutive hyphens are allowed.
    pub fn allow_consecutive_hyphens(self, allow: bool) -> (r: Self)
        ensures
            r == (DelimiterRulesBuilder { allow_consecutive_hyphens: Some(allow), ..self }),
    {
        DelimiterRulesBuilder { allow_consecutive_hyphens: Some(allow), ..self }
    }

    /// Sets whether consecutive underscores are allowed.
    pub fn allow_consecutive_underscores(self, allow: bool) -> (r: Self)
        ensures
            r == (DelimiterRulesBuilder { allow_consecutive_underscores: Some(allow), ..self }),
    {
        DelimiterRulesBuilder { allow_consecutive_underscores: Some(allow), ..self }
    }

    /// Sets whether adjacent hyphen and underscore are allowed.
    pub fn allow_adjacent_hyphen_underscore(self, allow: bool) -> (r: Self)
        ensures
            r == (DelimiterRulesBuilder { allow_adjacent_hyphen_underscore: Some(allow), ..self }),
    {
        DelimiterRulesBuilder { allow_adjacent_hyphen_underscore: Some(allow), ..self }
    }

    /// Builds the [`DelimiterRules`]; missing rules default to not allowed.
    pub fn build(self) -> (r: DelimiterRules)
        ensures
            r.allow_leading_trailing_hyphens == rule_or_false(self.allow_leading_trailing_hyphens),
            r.allow_leading_trailing_underscores == rule_or_false(
                self.allow_leading_trailing_underscores,
            ),
            r.allow_consecutive_hyphens == rule_or_false(self.allow_consecutive_hyphens),
            r.allow_consecutive_underscores == rule_or_false(self.allow_consecutive_underscores),
            r.allow_adjacent_hyphen_underscore == rule_or_false(
                self.allow_adjacent_hyphen_underscore,
            ),
    {
        DelimiterRules {
            allow_leading_trailing_hyphens: self.allow_leading_trailing_hyphens.unwrap_or(false),
            allow_leading_trailing_underscores: self.allow_leading_trailing_underscores.unwrap_or(
                false,
            ),
            allow_consecutive_hyphens: self.allow_consecutive_hyphens.unwrap_or(false),
            allow_consecutive_underscores: self.allow_consecutive_underscores.unwrap_or(false),
            allow_adjacent_hyphen_underscore: self.allow_adjacent_hyphen_underscore.unwrap_or(
                false,
            ),
        }
    }
}

impl Default for DelimiterRulesBuilder {
    fn default() -> (r: Self)
        ensures
            r == Self::spec_empty(),
    {
        DelimiterRulesBuilder::new()
    }
}

} // verus!
