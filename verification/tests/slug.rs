use agent_first_slug::{
    slugify, validate_slug, AllowedCharacterSet, DotHandlingPolicy, EmptyOutputPolicy,
    SlugConfig, SlugError, SlugResult, SlugValidationPolicy, TransliterationPolicy,
};

fn slug(input: &str, config: &SlugConfig) -> Result<String, SlugError> {
    slugify(input, config).map(|result| result.slug)
}

fn unicode_local_path_config() -> SlugConfig {
    SlugConfig {
        replacement_delimiter: '-',
        lowercase_enabled: true,
        max_slug_chars: None,
        allowed_character_set: AllowedCharacterSet::UnicodeAlphanumericCharacters,
        dot_handling_policy: DotHandlingPolicy::ReplaceAllDots,
        transliteration_policy: TransliterationPolicy::NoTransliteration,
        validation_policy: SlugValidationPolicy::LocalPathSegment,
        empty_output_policy: EmptyOutputPolicy::KeepEmptySlug,
    }
}

fn url_path_segment_config() -> SlugConfig {
    SlugConfig {
        replacement_delimiter: '-',
        lowercase_enabled: true,
        max_slug_chars: None,
        allowed_character_set: AllowedCharacterSet::UnicodeLettersAndDecimalDigits,
        dot_handling_policy: DotHandlingPolicy::PreserveDotsBetweenDecimalDigits,
        transliteration_policy: TransliterationPolicy::NoTransliteration,
        validation_policy: SlugValidationPolicy::UrlPathSegment,
        empty_output_policy: EmptyOutputPolicy::KeepEmptySlug,
    }
}

fn ascii_local_path_config_with_fallback() -> SlugConfig {
    SlugConfig {
        replacement_delimiter: '-',
        lowercase_enabled: true,
        max_slug_chars: None,
        allowed_character_set: AllowedCharacterSet::AsciiAlphanumericCharacters,
        dot_handling_policy: DotHandlingPolicy::ReplaceAllDots,
        transliteration_policy: TransliterationPolicy::NoTransliteration,
        validation_policy: SlugValidationPolicy::LocalPathSegment,
        empty_output_policy: EmptyOutputPolicy::UseFallbackSlug("fallback".to_string()),
    }
}

#[test]
fn default_config_is_minimal_and_keeps_empty() {
    let config = SlugConfig::default();

    assert_eq!(
        slugify("", &config),
        Ok(SlugResult {
            slug: String::new(),
            changed_from_input: false,
        })
    );
    assert_eq!(slug("!!!", &config), Ok(String::new()));
}

#[test]
fn unicode_local_path_segment_examples_pass_when_non_empty() {
    let config = unicode_local_path_config();

    assert_eq!(
        slug("現在的Nobody，未來的Somebody！", &config),
        Ok("現在的nobody-未來的somebody".to_string())
    );
    assert_eq!(
        slug("牙好，胃口就好，身体倍儿棒，吃嘛嘛香。", &config),
        Ok("牙好-胃口就好-身体倍儿棒-吃嘛嘛香".to_string())
    );
    assert_eq!(
        slug("お元気ですか？", &config),
        Ok("お元気ですか".to_string())
    );
    assert_eq!(
        slug("Ubuntu 16.04", &config),
        Ok("ubuntu-16-04".to_string())
    );
}

#[test]
fn local_path_segment_validation_rejects_empty_slug_after_keep_empty() {
    assert_eq!(
        slug("!!!", &unicode_local_path_config()),
        Err(SlugError::EmptyPathSegment)
    );
}

#[test]
fn url_path_segment_examples_pass() {
    let config = url_path_segment_config();

    assert_eq!(
        slug("Ubuntu 16.04", &config),
        Ok("ubuntu-16.04".to_string())
    );
    assert_eq!(
        slug("T.U.S.F.G.E.3.0.8", &config),
        Ok("t-u-s-f-g-e-3.0.8".to_string())
    );
    assert_eq!(
        slug(".18 increased ! ", &config),
        Ok("18-increased".to_string())
    );
    assert_eq!(
        slug("お元気ですか？", &config),
        Ok("お元気ですか".to_string())
    );
}

#[test]
fn ascii_local_path_segment_examples_pass_with_configured_fallback() {
    let config = ascii_local_path_config_with_fallback();

    assert_eq!(slug("Hello 世界", &config), Ok("hello".to_string()));
    assert_eq!(
        slug("Ubuntu 16.04", &config),
        Ok("ubuntu-16-04".to_string())
    );
    assert_eq!(slug("你好，世界", &config), Ok("fallback".to_string()));
}

#[test]
fn preserve_all_dots_keeps_every_dot() {
    let config = SlugConfig {
        dot_handling_policy: DotHandlingPolicy::PreserveAllDots,
        ..SlugConfig::default()
    };

    assert_eq!(slug("A.B..C", &config), Ok("a.b..c".to_string()));
}

#[test]
fn ascii_character_set_removes_non_ascii_letters() {
    let config = SlugConfig {
        allowed_character_set: AllowedCharacterSet::AsciiAlphanumericCharacters,
        ..SlugConfig::default()
    };

    assert_eq!(slug("Cafe 世界 42", &config), Ok("cafe-42".to_string()));
}

#[test]
fn unicode_letters_decimal_digits_excludes_letter_numbers() {
    let config = SlugConfig {
        allowed_character_set: AllowedCharacterSet::UnicodeLettersAndDecimalDigits,
        ..SlugConfig::default()
    };

    assert_eq!(slug("Chapter \u{2163}", &config), Ok("chapter".to_string()));
}

#[test]
fn unicode_alphanumeric_keeps_letter_numbers() {
    let config = SlugConfig {
        allowed_character_set: AllowedCharacterSet::UnicodeAlphanumericCharacters,
        ..SlugConfig::default()
    };

    assert_eq!(
        slug("Chapter \u{2163}", &config),
        Ok("chapter-\u{2173}".to_string())
    );
}

#[test]
fn static_transliteration_runs_before_filtering() {
    static MAP: &[(&str, &str)] = &[("Æ", "AE"), ("東京", "Tokyo")];
    let config = SlugConfig {
        allowed_character_set: AllowedCharacterSet::AsciiAlphanumericCharacters,
        transliteration_policy: TransliterationPolicy::StaticReplacementMap(MAP),
        ..SlugConfig::default()
    };

    assert_eq!(slug("Æther 東京", &config), Ok("aether-tokyo".to_string()));
}

#[test]
fn transliteration_prefers_the_longest_match() {
    static MAP: &[(&str, &str)] = &[("a", "1"), ("abc", "9")];
    let config = SlugConfig {
        transliteration_policy: TransliterationPolicy::StaticReplacementMap(MAP),
        ..SlugConfig::default()
    };

    // "abc" matches both "a" and "abc" at index 0; the longer pattern wins
    // regardless of slice order.
    assert_eq!(slug("abc", &config), Ok("9".to_string()));
    assert_eq!(slug("ax", &config), Ok("1x".to_string()));
}

#[test]
fn empty_transliteration_pattern_is_rejected() {
    static MAP: &[(&str, &str)] = &[("", "x")];
    let config = SlugConfig {
        transliteration_policy: TransliterationPolicy::StaticReplacementMap(MAP),
        ..SlugConfig::default()
    };

    assert_eq!(
        slugify("anything", &config),
        Err(SlugError::EmptyTransliterationPattern)
    );
}

#[test]
fn max_slug_chars_runs_after_lowercase_and_can_trigger_fallback() {
    let lower_before_max = SlugConfig {
        max_slug_chars: Some(1),
        ..SlugConfig::default()
    };
    assert_eq!(slug("\u{0130}", &lower_before_max), Ok("i".to_string()));

    let fallback_after_max = SlugConfig {
        max_slug_chars: Some(0),
        empty_output_policy: EmptyOutputPolicy::UseFallbackSlug("fallback".to_string()),
        ..SlugConfig::default()
    };
    assert_eq!(slug("abc", &fallback_after_max), Ok("fallback".to_string()));
}

#[test]
fn truncation_strips_trailing_delimiter_the_cut_exposes() {
    let config = SlugConfig {
        max_slug_chars: Some(6),
        ..SlugConfig::default()
    };
    // "hello-world" cut to 6 chars is "hello-"; the exposed delimiter is dropped.
    assert_eq!(slug("hello world", &config), Ok("hello".to_string()));

    // A cut that lands mid-word keeps the partial word unchanged.
    let mid_word = SlugConfig {
        max_slug_chars: Some(4),
        ..SlugConfig::default()
    };
    assert_eq!(slug("hello world", &mid_word), Ok("hell".to_string()));

    // A cut landing right after a delimiter drops it, leaving the leading token.
    let after_delimiter = SlugConfig {
        max_slug_chars: Some(2),
        ..SlugConfig::default()
    };
    assert_eq!(slug("a bb cc", &after_delimiter), Ok("a".to_string()));
}

#[test]
fn validation_runs_after_fallback() {
    let valid_fallback = ascii_local_path_config_with_fallback();
    assert_eq!(slug("你好", &valid_fallback), Ok("fallback".to_string()));

    let invalid_fallback = SlugConfig {
        empty_output_policy: EmptyOutputPolicy::UseFallbackSlug("bad/fallback".to_string()),
        validation_policy: SlugValidationPolicy::LocalPathSegment,
        ..SlugConfig::default()
    };
    assert_eq!(
        slug("!!!", &invalid_fallback),
        Err(SlugError::PathSegmentSeparator { character: '/' })
    );
}

#[test]
fn no_validation_accepts_raw_unsafe_value() {
    assert_eq!(validate_slug("", SlugValidationPolicy::NoValidation), Ok(()));
    assert_eq!(validate_slug("../x", SlugValidationPolicy::NoValidation), Ok(()));
}

#[test]
fn local_path_segment_validation_rejects_unsafe_values() {
    assert_eq!(
        validate_slug("", SlugValidationPolicy::LocalPathSegment),
        Err(SlugError::EmptyPathSegment)
    );
    assert_eq!(
        validate_slug("a/b", SlugValidationPolicy::LocalPathSegment),
        Err(SlugError::PathSegmentSeparator { character: '/' })
    );
    assert_eq!(
        validate_slug("a\\b", SlugValidationPolicy::LocalPathSegment),
        Err(SlugError::PathSegmentSeparator { character: '\\' })
    );
    assert_eq!(
        validate_slug("a b", SlugValidationPolicy::LocalPathSegment),
        Err(SlugError::PathSegmentWhitespace { character: ' ' })
    );
    assert_eq!(
        validate_slug("a\u{0007}b", SlugValidationPolicy::LocalPathSegment),
        Err(SlugError::PathSegmentControlCharacter {
            character: '\u{0007}'
        })
    );
    assert_eq!(
        validate_slug(".", SlugValidationPolicy::LocalPathSegment),
        Err(SlugError::PathSegmentDotValue)
    );
    assert_eq!(
        validate_slug("..", SlugValidationPolicy::LocalPathSegment),
        Err(SlugError::PathSegmentDotValue)
    );
}

#[test]
fn url_path_segment_validation_rejects_url_delimiters_and_raw_percent() {
    assert_eq!(
        validate_slug("a?b", SlugValidationPolicy::UrlPathSegment),
        Err(SlugError::UrlPathSegmentReservedCharacter { character: '?' })
    );
    assert_eq!(
        validate_slug("a#b", SlugValidationPolicy::UrlPathSegment),
        Err(SlugError::UrlPathSegmentReservedCharacter { character: '#' })
    );
    assert_eq!(
        validate_slug("a%b", SlugValidationPolicy::UrlPathSegment),
        Err(SlugError::UrlPathSegmentReservedCharacter { character: '%' })
    );
    assert_eq!(
        validate_slug("a/b", SlugValidationPolicy::UrlPathSegment),
        Err(SlugError::PathSegmentSeparator { character: '/' })
    );
    assert_eq!(
        validate_slug("safe-現在-16.04", SlugValidationPolicy::UrlPathSegment),
        Ok(())
    );
}
