//! The choices that the `afslug` command line offers, and the library
//! configuration each of them stands for.

use vstd::prelude::*;

use crate::config::{
    AllowedCharacterSet, DotHandlingPolicy, EmptyOutputPolicy, SlugConfig, SlugValidationPolicy,
    TransliterationPolicy,
};

verus! {

/// Character set chosen with `--charset`.
#[derive(Debug, Clone, Copy, PartialEq, Eq, Structural)]
pub enum CharsetArg {
    /// Unicode alphanumeric characters
    UnicodeAlphanumeric,
    /// ASCII letters and digits only
    AsciiAlphanumeric,
    /// Unicode letters plus decimal digits
    UnicodeLettersDigits,
}

/// Dot handling chosen with `--dots`.
#[derive(Debug, Clone, Copy, PartialEq, Eq, Structural)]
pub enum DotsArg {
    /// Treat every dot as a delimiter
    Replace,
    /// Preserve every dot
    Preserve,
    /// Preserve a dot only between two decimal digits
    PreserveBetweenDigits,
}

/// Validation chosen with `slugify --validation`.
#[derive(Debug, Clone, Copy, PartialEq, Eq, Structural)]
pub enum ValidationArg {
    /// No validation
    NoValidation,
    /// Validate as one local filesystem path segment
    LocalPath,
    /// Validate as one URL path segment
    UrlPath,
}

/// Path-segment kind chosen with `validate --policy`.
#[derive(Debug, Clone, Copy, PartialEq, Eq, Structural)]
pub enum PolicyArg {
    /// One local filesystem path segment
    LocalPath,
    /// One URL path segment
    UrlPath,
}

/// The library value that a `CharsetArg` stands for.
pub open spec fn charset_policy(arg: CharsetArg) -> AllowedCharacterSet {
    match arg {
        CharsetArg::UnicodeAlphanumeric => AllowedCharacterSet::UnicodeAlphanumericCharacters,
        CharsetArg::AsciiAlphanumeric => AllowedCharacterSet::AsciiAlphanumericCharacters,
        CharsetArg::UnicodeLettersDigits => AllowedCharacterSet::UnicodeLettersAndDecimalDigits,
    }
}

/// The library value that a `DotsArg` stands for.
pub open spec fn dots_policy(arg: DotsArg) -> DotHandlingPolicy {
    match arg {
        DotsArg::Replace => DotHandlingPolicy::ReplaceAllDots,
        DotsArg::Preserve => DotHandlingPolicy::PreserveAllDots,
        DotsArg::PreserveBetweenDigits => DotHandlingPolicy::PreserveDotsBetweenDecimalDigits,
    }
}

/// The library value that a `ValidationArg` stands for.
pub open spec fn validation_arg_policy(arg: ValidationArg) -> SlugValidationPolicy {
    match arg {
        ValidationArg::NoValidation => SlugValidationPolicy::NoValidation,
        ValidationArg::LocalPath => SlugValidationPolicy::LocalPathSegment,
        ValidationArg::UrlPath => SlugValidationPolicy::UrlPathSegment,
    }
}

/// The library value that a `PolicyArg` stands for.
pub open spec fn policy_arg_policy(arg: PolicyArg) -> SlugValidationPolicy {
    match arg {
        PolicyArg::LocalPath => SlugValidationPolicy::LocalPathSegment,
        PolicyArg::UrlPath => SlugValidationPolicy::UrlPathSegment,
    }
}

impl CharsetArg {
    /// The character set this choice stands for.
    pub fn into_lib(self) -> (r: AllowedCharacterSet)
        ensures
            r == charset_policy(self),
    {
        match self {
            CharsetArg::UnicodeAlphanumeric => AllowedCharacterSet::UnicodeAlphanumericCharacters,
            CharsetArg::AsciiAlphanumeric => AllowedCharacterSet::AsciiAlphanumericCharacters,
            CharsetArg::UnicodeLettersDigits => AllowedCharacterSet::UnicodeLettersAndDecimalDigits,
        }
    }
}

impl DotsArg {
    /// The dot handling policy this choice stands for.
    pub fn into_lib(self) -> (r: DotHandlingPolicy)
        ensures
            r == dots_policy(self),
    {
        match self {
            DotsArg::Replace => DotHandlingPolicy::ReplaceAllDots,
            DotsArg::Preserve => DotHandlingPolicy::PreserveAllDots,
            DotsArg::PreserveBetweenDigits => DotHandlingPolicy::PreserveDotsBetweenDecimalDigits,
        }
    }
}

impl ValidationArg {
    /// The validation policy this choice stands for.
    pub fn into_lib(self) -> (r: SlugValidationPolicy)
        ensures
            r == validation_arg_policy(self),
    {
        match self {
            ValidationArg::NoValidation => SlugValidationPolicy::NoValidation,
            ValidationArg::LocalPath => SlugValidationPolicy::LocalPathSegment,
            ValidationArg::UrlPath => SlugValidationPolicy::UrlPathSegment,
        }
    }
}

impl PolicyArg {
    /// The validation policy this choice stands for.
    pub fn into_lib(self) -> (r: SlugValidationPolicy)
        ensures
            r == policy_arg_policy(self),
    {
        match self {
            PolicyArg::LocalPath => SlugValidationPolicy::LocalPathSegment,
            PolicyArg::UrlPath => SlugValidationPolicy::UrlPathSegment,
        }
    }
}

/// The configuration that `afslug slugify` builds from its options.
/// Transliteration stays off: its static replacement map cannot be built
/// from command-line arguments.
pub fn cli_slugify_config(
    delimiter: char,
    no_lowercase: bool,
    max_chars: Option<usize>,
    charset: CharsetArg,
    dots: DotsArg,
    validation: ValidationArg,
    fallback: Option<String>,
) -> (config: SlugConfig)
    ensures
        config.replacement_delimiter == delimiter,
        config.lowercase_enabled == !no_lowercase,
        config.max_slug_chars == max_chars,
        config.allowed_character_set == charset_policy(charset),
        config.dot_handling_policy == dots_policy(dots),
        config.transliteration_policy is NoTransliteration,
        config.validation_policy == validation_arg_policy(validation),
        config.empty_output_policy == match fallback {
            Some(f) => EmptyOutputPolicy::UseFallbackSlug(f),
            None => EmptyOutputPolicy::KeepEmptySlug,
        },
{
    SlugConfig {
        replacement_delimiter: delimiter,
        lowercase_enabled: !no_lowercase,
        max_slug_chars: max_chars,
        allowed_character_set: charset.into_lib(),
        dot_handling_policy: dots.into_lib(),
        transliteration_policy: TransliterationPolicy::NoTransliteration,
        validation_policy: validation.into_lib(),
        empty_output_policy: match fallback {
            Some(f) => EmptyOutputPolicy::UseFallbackSlug(f),
            None => EmptyOutputPolicy::KeepEmptySlug,
        },
    }
}

/// Each command-line choice stands for the library value of the same
/// meaning, and different choices stand for different values: `--dots
/// replace` replaces every dot, `preserve` keeps every dot, and
/// `preserve-between-digits` keeps a dot only between two decimal digits;
/// likewise for the character sets and the validation policies.
pub proof fn law_cli_choices_keep_their_meaning(
    a: DotsArg,
    b: DotsArg,
    c: CharsetArg,
    e: CharsetArg,
    v: ValidationArg,
    w: ValidationArg,
    p: PolicyArg,
    q: PolicyArg,
)
    ensures
        dots_policy(a) == match a {
            DotsArg::Replace => DotHandlingPolicy::ReplaceAllDots,
            DotsArg::Preserve => DotHandlingPolicy::PreserveAllDots,
            DotsArg::PreserveBetweenDigits => DotHandlingPolicy::PreserveDotsBetweenDecimalDigits,
        },
        charset_policy(c) == match c {
            CharsetArg::UnicodeAlphanumeric => AllowedCharacterSet::UnicodeAlphanumericCharacters,
            CharsetArg::AsciiAlphanumeric => AllowedCharacterSet::AsciiAlphanumericCharacters,
            CharsetArg::UnicodeLettersDigits => AllowedCharacterSet::UnicodeLettersAndDecimalDigits,
        },
        validation_arg_policy(v) == match v {
            ValidationArg::NoValidation => SlugValidationPolicy::NoValidation,
            ValidationArg::LocalPath => SlugValidationPolicy::LocalPathSegment,
            ValidationArg::UrlPath => SlugValidationPolicy::UrlPathSegment,
        },
        policy_arg_policy(p) == match p {
            PolicyArg::LocalPath => SlugValidationPolicy::LocalPathSegment,
            PolicyArg::UrlPath => SlugValidationPolicy::UrlPathSegment,
        },
        dots_policy(a) == dots_policy(b) ==> a == b,
        charset_policy(c) == charset_policy(e) ==> c == e,
        validation_arg_policy(v) == validation_arg_policy(w) ==> v == w,
        policy_arg_policy(p) == policy_arg_policy(q) ==> p == q,
{
}

} // verus!
