use vstd::prelude::*;

use crate::error::ConfigError;

verus! {

/// Largest string length that `n` bytes can hold at six bits per character.
pub open spec fn capacity_of(n: int) -> int {
    n * 4 / 3
}

/// Calculates the length of the decoded string based on the number of input bytes.
pub fn calc_str_len(n: usize) -> (r: usize)
    requires
        capacity_of(n as int) <= usize::MAX,
    ensures
        r == capacity_of(n as int),
{
    n / 3 * 4 + n % 3 * 4 / 3
}

/// Which character classes an identifier may hold.
#[derive(Clone, Copy, PartialEq, Eq, PartialOrd, Ord, Hash, Debug, Structural)]
pub enum Composition {
    /// Letters and digits.
    Alphanumeric,
    /// Letters, digits and hyphen.
    AlphanumericHyphen,
    /// Letters, digits and underscore.
    AlphanumericUnderscore,
    /// Letters, digits, hyphen and underscore.
    AlphanumericHyphenUnderscore,
}

impl Composition {
    /// Whether this composition admits hyphens.
    pub open spec fn spec_allows_hyphen(self) -> bool {
        self is AlphanumericHyphen || self is AlphanumericHyphenUnderscore
    }

    /// Whether this composition admits underscores.
    pub open spec fn spec_allows_underscore(self) -> bool {
        self is AlphanumericUnderscore || self is AlphanumericHyphenUnderscore
    }

    /// Whether this composition admits hyphens.
    pub fn allows_hyphen(&self) -> (r: bool)
        ensures
            r == self.spec_allows_hyphen(),
    {
        match self {
            Composition::AlphanumericHyphen | Composition::AlphanumericHyphenUnderscore => true,
            _ => false,
        }
    }

    /// Whether this composition admits underscores.
    pub fn allows_underscore(&self) -> (r: bool)
        ensures
            r == self.spec_allows_underscore(),
    {
        match self {
            Composition::AlphanumericUnderscore | Composition::AlphanumericHyphenUnderscore => true,
            _ => false,
        }
    }
}

impl Default for Composition {
    fn default() -> (r: Self)
        ensures
            r == Composition::AlphanumericHyphen,
    {
        Composition::AlphanumericHyphen
    }
}

/// Placement rules for hyphens and underscores. Each flag says whether the
/// placement is allowed; a leading and a trailing delimiter share one flag.
#[derive(Clone, Copy, PartialEq, Eq, PartialOrd, Ord, Hash, Debug, Structural)]
pub struct DelimiterRules {
    pub allow_leading_trailing_hyphens: bool,
    pub allow_leading_trailing_underscores: bool,
    pub allow_consecutive_hyphens: bool,
    pub allow_consecutive_underscores: bool,
    pub allow_adjacent_hyphen_underscore: bool,
}

impl DelimiterRules {
    /// The rules that forbid every delimiter placement.
    pub open spec fn spec_none_allowed() -> DelimiterRules {
        DelimiterRules {
            allow_leading_trailing_hyphens: false,
            allow_leading_trailing_underscores: false,
            allow_consecutive_hyphens: false,
            allow_consecutive_underscores: false,
            allow_adjacent_hyphen_underscore: false,
        }
    }

    /// The rules that allow every delimiter placement.
    pub open spec fn spec_all_allowed() -> DelimiterRules {
        DelimiterRules {
            allow_leading_trailing_hyphens: true,
            allow_leading_trailing_underscores: true,
            allow_consecutive_hyphens: true,
            allow_consecutive_underscores: true,
            allow_adjacent_hyphen_underscore: true,
        }
    }

    /// Creates a new set of delimiter rules.
    pub fn new(
        allow_leading_trailing_hyphens: bool,
        allow_leading_trailing_underscores: bool,
        allow_consecutive_hyphens: bool,
        allow_consecutive_underscores: bool,
        allow_adjacent_hyphen_underscore: bool,
    ) -> (r: Self)
        ensures
            r.allow_leading_trailing_hyphens == allow_leading_trailing_hyphens,
            r.allow_leading_trailing_underscores == allow_leading_trailing_underscores,
            r.allow_consecutive_hyphens == allow_consecutive_hyphens,
            r.allow_consecutive_underscores == allow_consecutive_underscores,
            r.allow_adjacent_hyphen_underscore == allow_adjacent_hyphen_underscore,
    {
        DelimiterRules {
            allow_leading_trailing_hyphens,
            allow_leading_trailing_underscores,
            allow_consecutive_hyphens,
            allow_consecutive_underscores,
            allow_adjacent_hyphen_underscore,
        }
    }

    /// Creates a new set of delimiter rules with all rules allowed.
    pub fn all_allowed() -> (r: Self)
        ensures
            r == Self::spec_all_allowed(),
    {
        DelimiterRules {
            allow_leading_trailing_hyphens: true,
            allow_leading_trailing_underscores: true,
            allow_consecutive_hyphens: true,
            allow_consecutive_underscores: true,
            allow_adjacent_hyphen_underscore: true,
        }
    }

    /// Creates a new builder for delimiter rules.
    pub fn builder() -> (r: DelimiterRulesBuilder)
        ensures
            r == DelimiterRulesBuilder::spec_empty(),
    {
        DelimiterRulesBuilder::new()
    }

    /// Whether leading and trailing hyphens are allowed.
    pub fn allow_leading_trailing_hyphens(&self) -> (r: bool)
        ensures
            r == self.allow_leading_trailing_hyphens,
    {
        self.allow_leading_trailing_hyphens
    }

    /// Whether leading and trailing underscores are allowed.
    pub fn allow_leading_trailing_underscores(&self) -> (r: bool)
        ensures
            r == self.allow_leading_trailing_underscores,
    {
        self.allow_leading_trailing_underscores
    }

    /// Whether consecutive hyphens are allowed.
    pub fn allow_consecutive_hyphens(&self) -> (r: bool)
        ensures
            r == self.allow_consecutive_hyphens,
    {
        self.allow_consecutive_hyphens
    }

    /// Whether consecutive underscores are allowed.
    pub fn allow_consecutive_underscores(&self) -> (r: bool)
        ensures
            r == self.allow_consecutive_underscores,
    {
        self.allow_consecutive_underscores
    }

    /// Whether a hyphen and an underscore can be adjacent.
    pub fn allow_adjacent_hyphen_underscore(&self) -> (r: bool)
        ensures
            r == self.allow_adjacent_hyphen_underscore,
    {
        self.allow_adjacent_hyphen_underscore
    }
}

impl Default for DelimiterRules {
    fn default() -> (r: Self)
        ensures
            r == Self::spec_none_allowed(),
    {
        DelimiterRules::new(false, false, false, false, false)
    }
}

/// Builder for [`DelimiterRules`]; a rule left unset is not allowed.
pub struct DelimiterRulesBuilder {
    pub allow_leading_trailing_hyphens: Option<bool>,
    pub allow_leading_trailing_underscores: Option<bool>,
    pub allow_consecutive_hyphens: Option<bool>,
    pub allow_consecutive_underscores: Option<bool>,
    pub allow_adjacent_hyphen_underscore: Option<bool>,
}

/// The value of a rule that may have been left unset.
pub open spec fn rule_or_false(rule: Option<bool>) -> bool {
    match rule {
        Some(b) => b,
        None => false,
    }
}

impl DelimiterRulesBuilder {
    /// A builder with no rule set.
    pub open spec fn spec_empty() -> DelimiterRulesBuilder {
        DelimiterRulesBuilder {
            allow_leading_trailing_hyphens: None,
            allow_leading_trailing_underscores: None,
            allow_consecutive_hyphens: None,
            allow_consecutive_underscores: None,
            allow_adjacent_hyphen_underscore: None,
        }
    }

    /// Creates a new builder for delimiter rules.
    pub fn new() -> (r: Self)
        ensures
            r == Self::spec_empty(),
    {
        DelimiterRulesBuilder {
            allow_leading_trailing_hyphens: None,
            allow_leading_trailing_underscores: None,
            allow_consecutive_hyphens: None,
            allow_consecutive_underscores: None,
            allow_adjacent_hyphen_underscore: None,
        }
    }

    /// Sets whether leading and trailing hyphens are allowed.
    pub fn allow_leading_trailing_hyphens(self, allow: bool) -> (r: Self)
        ensures
            r == (DelimiterRulesBuilder { allow_leading_trailing_hyphens: Some(allow), ..self }),
    {
        DelimiterRulesBuilder { allow_leading_trailing_hyphens: Some(allow), ..self }
    }

    /// Sets whether leading and trailing underscores are allowed.
    pub fn allow_leading_trailing_underscores(self, allow: bool) -> (r: Self)
        ensures
            r == (DelimiterRulesBuilder { allow_leading_trailing_underscores: Some(allow), ..self }),
    {
        DelimiterRulesBuilder { allow_leading_trailing_underscores: Some(allow), ..self }
    }

    /// Sets whether consecutive hyphens are allowed.
    pub fn allow_consecutive_hyphens(self, allow: bool) -> (r: Self)
        ensures
            r == (DelimiterRulesBuilder { allow_consecutive_hyphens: Some(allow), ..self }),
    {
        DelimiterRulesBuilder { allow_consecutive_hyphens: Some(allow), ..self }
    }

    /// Sets whether consecutive underscores are allowed.
    pub fn allow_consecutive_underscores(self, allow: bool) -> (r: Self)
        ensures
            r == (DelimiterRulesBuilder { allow_consecutive_underscores: Some(allow), ..self }),
    {
        DelimiterRulesBuilder { allow_consecutive_underscores: Some(allow), ..self }
    }

    /// Sets whether adjacent hyphen and underscore are allowed.
    pub fn allow_adjacent_hyphen_underscore(self, allow: bool) -> (r: Self)
        ensures
            r == (DelimiterRulesBuilder { allow_adjacent_hyphen_underscore: Some(allow), ..self }),
    {
        DelimiterRulesBuilder { allow_adjacent_hyphen_underscore: Some(allow), ..self }
    }

    /// Builds the [`DelimiterRules`]; missing rules default to not allowed.
    pub fn build(self) -> (r: DelimiterRules)
        ensures
            r.allow_leading_trailing_hyphens == rule_or_false(self.allow_leading_trailing_hyphens),
            r.allow_leading_trailing_underscores == rule_or_false(
                self.allow_leading_trailing_underscores,
            ),
            r.allow_consecutive_hyphens == rule_or_false(self.allow_consecutive_hyphens),
            r.allow_consecutive_underscores == rule_or_false(self.allow_consecutive_underscores),
            r.allow_adjacent_hyphen_underscore == rule_or_false(
                self.allow_adjacent_hyphen_underscore,
            ),
    {
        DelimiterRules {
            allow_leading_trailing_hyphens: self.allow_leading_trailing_hyphens.unwrap_or(false),
            allow_leading_trailing_underscores: self.allow_leading_trailing_underscores.unwrap_or(
                false,
            ),
            allow_consecutive_hyphens: self.allow_consecutive_hyphens.unwrap_or(false),
            allow_consecutive_underscores: self.allow_consecutive_underscores.unwrap_or(false),
            allow_adjacent_hyphen_underscore: self.allow_adjacent_hyphen_underscore.unwrap_or(
                false,
            ),
        }
    }
}

impl Default for DelimiterRulesBuilder {
    fn default() -> (r: Self)
        ensures
            r == Self::spec_empty(),
    {
        DelimiterRulesBuilder::new()
    }
}

/// User-facing validation settings: length bounds, the admitted character
/// classes and the delimiter placement rules (`None`: nothing is allowed).
#[derive(Clone, Copy, PartialEq, Eq, PartialOrd, Ord, Hash, Debug, Structural)]
pub struct Config {
    pub min_length: Option<usize>,
    pub max_length: Option<usize>,
    pub composition: Composition,
    pub delimiter: Option<DelimiterRules>,
}

/// Whether an optional minimum does not exceed an optional maximum.
pub open spec fn length_range_ok(min_length: Option<usize>, max_length: Option<usize>) -> bool {
    match (min_length, max_length) {
        (Some(min), Some(max)) => min <= max,
        _ => true,
    }
}

impl Config {
    /// The default configuration: at least three characters, letters, digits
    /// and hyphens, and no delimiter placement allowed.
    pub open spec fn spec_default() -> Config {
        Config {
            min_length: Some(3),
            max_length: None,
            composition: Composition::AlphanumericHyphen,
            delimiter: None,
        }
    }

    /// The least restrictive configuration.
    pub open spec fn spec_minimal() -> Config {
        Config {
            min_length: None,
            max_length: None,
            composition: Composition::AlphanumericHyphenUnderscore,
            delimiter: Some(DelimiterRules::spec_all_allowed()),
        }
    }

    /// Constructs a new validation configuration.
    pub fn new(
        min_length: Option<usize>,
        max_length: Option<usize>,
        composition: Composition,
        delimiter: Option<DelimiterRules>,
    ) -> (r: Self)
        requires
            length_range_ok(min_length, max_length),
        ensures
            r == (Config { min_length, max_length, composition, delimiter }),
    {
        Config { min_length, max_length, composition, delimiter }
    }

    /// Constructs a minimally restricted validation configuration.
    pub fn minimal() -> (r: Self)
        ensures
            r == Self::spec_minimal(),
    {
        Config {
            min_length: None,
            max_length: None,
            composition: Composition::AlphanumericHyphenUnderscore,
            delimiter: Some(DelimiterRules::all_allowed()),
        }
    }

    /// Creates a new builder for validation config.
    pub fn builder() -> (r: ConfigBuilder)
        ensures
            r == ConfigBuilder::spec_default(),
    {
        ConfigBuilder::new()
    }

    /// Returns the minimum allowed length.
    pub fn min_length(&self) -> (r: Option<usize>)
        ensures
            r == self.min_length,
    {
        self.min_length
    }

    /// Returns the maximum allowed length.
    pub fn max_length(&self) -> (r: Option<usize>)
        ensures
            r == self.max_length,
    {
        self.max_length
    }

    /// Returns the identifier composition rule.
    pub fn composition(&self) -> (r: Composition)
        ensures
            r == self.composition,
    {
        self.composition
    }

    /// Returns the delimiter rules, if any.
    pub fn delimiter(&self) -> (r: Option<DelimiterRules>)
        ensures
            r == self.delimiter,
    {
        self.delimiter
    }
}

impl Default for Config {
    fn default() -> (r: Self)
        ensures
            r == Self::spec_default(),
    {
        Config {
            min_length: Some(3),
            max_length: None,
            composition: Composition::AlphanumericHyphen,
            delimiter: None,
        }
    }
}

/// Builder for [`Config`], starting from the default configuration.
pub struct ConfigBuilder {
    pub min_length: Option<usize>,
    pub max_length: Option<usize>,
    pub composition: Composition,
    pub delimiter: Option<DelimiterRules>,
}

impl ConfigBuilder {
    /// A builder holding the default configuration.
    pub open spec fn spec_default() -> ConfigBuilder {
        ConfigBuilder {
            min_length: Some(3),
            max_length: None,
            composition: Composition::AlphanumericHyphen,
            delimiter: None,
        }
    }

    /// Creates a new builder for validation config.
    pub fn new() -> (r: Self)
        ensures
            r == Self::spec_default(),
    {
        ConfigBuilder {
            min_length: Some(3),
            max_length: None,
            composition: Composition::AlphanumericHyphen,
            delimiter: None,
        }
    }

    /// Sets the minimum allowed length.
    pub fn min_length(self, min: Option<usize>) -> (r: Self)
        ensures
            r == (ConfigBuilder { min_length: min, ..self }),
    {
        ConfigBuilder { min_length: min, ..self }
    }

    /// Sets the maximum allowed length.
    pub fn max_length(self, max: Option<usize>) -> (r: Self)
        ensures
            r == (ConfigBuilder { max_length: max, ..self }),
    {
        ConfigBuilder { max_length: max, ..self }
    }

    /// Sets the identifier composition.
    pub fn composition(self, composition: Composition) -> (r: Self)
        ensures
            r == (ConfigBuilder { composition, ..self }),
    {
        ConfigBuilder { composition, ..self }
    }

    /// Sets the delimiter rules.
    pub fn delimiter(self, delimiter: Option<DelimiterRules>) -> (r: Self)
        ensures
            r == (ConfigBuilder { delimiter, ..self }),
    {
        ConfigBuilder { delimiter, ..self }
    }

    /// Builds the [`Config`].
    pub fn build(self) -> (r: Config)
        requires
            length_range_ok(self.min_length, self.max_length),
        ensures
            r == (Config {
                min_length: self.min_length,
                max_length: self.max_length,
                composition: self.composition,
                delimiter: self.delimiter,
            }),
    {
        Config {
            min_length: self.min_length,
            max_length: self.max_length,
            composition: self.composition,
            delimiter: self.delimiter,
        }
    }
}

impl Default for ConfigBuilder {
    fn default() -> (r: Self)
        ensures
            r == Self::spec_default(),
    {
        ConfigBuilder::new()
    }
}

/// The delimiter rules in force: the given ones, or none allowed.
pub open spec fn rules_or_default(delimiter: Option<DelimiterRules>) -> DelimiterRules {
    match delimiter {
        Some(rules) => rules,
        None => DelimiterRules::spec_none_allowed(),
    }
}

/// The user maximum clamped to the capacity of `n` bytes.
pub open spec fn effective_max_of(n: int, max_length: Option<usize>) -> int {
    match max_length {
        Some(max) => if max < capacity_of(n) {
            max as int
        } else {
            capacity_of(n)
        },
        None => capacity_of(n),
    }
}

/// Whether a string made of the composition's characters could break one of
/// the rules; when it cannot, the delimiter pass of validation is skipped.
pub open spec fn spec_needs_delimiter_pass(composition: Composition, rules: DelimiterRules) -> bool {
    (composition.spec_allows_hyphen() && (!rules.allow_leading_trailing_hyphens
        || !rules.allow_consecutive_hyphens)) || (composition.spec_allows_underscore() && (
    !rules.allow_leading_trailing_underscores || !rules.allow_consecutive_underscores)) || (
    composition.spec_allows_hyphen() && composition.spec_allows_underscore()
        && !rules.allow_adjacent_hyphen_underscore)
}

/// A configuration checked against the byte size `N`, with the values that
/// validation needs worked out once.
#[derive(Clone, Copy, Debug)]
pub struct CompiledConfig<const N: usize> {
    pub min_length: Option<usize>,
    pub effective_max: usize,
    pub composition: Composition,
    pub rules: DelimiterRules,
    pub allow_hyphen: bool,
    pub allow_underscore: bool,
    pub needs_delimiter_pass: bool,
}

impl<const N: usize> CompiledConfig<N> {
    /// The derived fields agree with the others and the bounds are consistent.
    pub open spec fn wf(&self) -> bool {
        &&& capacity_of(N as int) <= usize::MAX
        &&& self.effective_max <= capacity_of(N as int)
        &&& match self.min_length {
            Some(min) => min <= self.effective_max,
            None => true,
        }
        &&& self.allow_hyphen == self.composition.spec_allows_hyphen()
        &&& self.allow_underscore == self.composition.spec_allows_underscore()
        &&& self.needs_delimiter_pass == spec_needs_delimiter_pass(self.composition, self.rules)
    }
}

/// Compiles length bounds, a composition and delimiter rules for the byte
/// size `N`. The effective maximum is the user maximum clamped to
/// `floor(N * 4 / 3)`, or that capacity when no maximum is given.
pub fn compile_config<const N: usize>(
    min_length: Option<usize>,
    max_length: Option<usize>,
    composition: Composition,
    delimiter: Option<DelimiterRules>,
) -> (r: Result<CompiledConfig<N>, ConfigError>)
    requires
        capacity_of(N as int) <= usize::MAX,
    ensures
        !length_range_ok(min_length, max_length) ==> r == Err::<CompiledConfig<N>, ConfigError>(
            ConfigError::InvalidLengthRange(min_length->0, max_length->0),
        ),
        length_range_ok(min_length, max_length) ==> match min_length {
            Some(min) if min > effective_max_of(N as int, max_length) => r == Err::<
                CompiledConfig<N>,
                ConfigError,
            >(ConfigError::InvalidCompiledLengthRange(min, effective_max_of(N as int, max_length) as usize)),
            _ => r matches Ok(c) && c.wf() && c.min_length == min_length && c.effective_max
                == effective_max_of(N as int, max_length) && c.composition == composition && c.rules
                == rules_or_default(delimiter),
        },
{
    if let (Some(min), Some(max)) = (min_length, max_length) {
        if min > max {
            return Err(ConfigError::InvalidLengthRange(min, max));
        }
    }
    let capacity = calc_str_len(N);
    let effective_max = match max_length {
        Some(max) => if max < capacity {
            max
        } else {
            capacity
        },
        None => capacity,
    };
    if let Some(min) = min_length {
        if min > effective_max {
            return Err(ConfigError::InvalidCompiledLengthRange(min, effective_max));
        }
    }
    let rules = match delimiter {
        Some(rules) => rules,
        None => DelimiterRules::default(),
    };
    let allow_hyphen = composition.allows_hyphen();
    let allow_underscore = composition.allows_underscore();
    let needs_delimiter_pass = (allow_hyphen && (!rules.allow_leading_trailing_hyphens
        || !rules.allow_consecutive_hyphens)) || (allow_underscore && (
    !rules.allow_leading_trailing_underscores || !rules.allow_consecutive_underscores)) || (
    allow_hyphen && allow_underscore && !rules.allow_adjacent_hyphen_underscore);
    Ok(
        CompiledConfig {
            min_length,
            effective_max,
            composition,
            rules,
            allow_hyphen,
            allow_underscore,
            needs_delimiter_pass,
        },
    )
}

} // verus!
