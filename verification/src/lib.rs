//! Slug generation and path-segment validation with explicit caller rules.
//!
//! `slugify` turns text into a slug in ten deterministic steps (see its
//! documentation); `validate_slug` checks a value as a local filesystem or
//! URL path segment. Each step has a specification over character sequences,
//! and the laws that the library keeps are proof functions beside the code
//! they speak of (`law_*`).

pub mod chars;
pub mod cli;
pub mod config;
pub mod filter;
pub mod message;
pub mod slugify;
pub mod transliterate;
pub mod trim;
pub mod unicode;
pub mod validate;

pub use cli::{cli_slugify_config, CharsetArg, DotsArg, PolicyArg, ValidationArg};
pub use config::{
    AllowedCharacterSet, DotHandlingPolicy, EmptyOutputPolicy, SlugConfig, SlugError,
    SlugResult, SlugValidationPolicy, TransliterationPolicy,
};
pub use filter::filter_marked;
pub use slugify::{complete_slug, slugify};
pub use validate::validate_slug;
