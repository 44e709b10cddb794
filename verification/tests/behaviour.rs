use agent_first_slug::{
    cli_slugify_config, complete_slug, filter_marked, slugify, validate_slug,
    AllowedCharacterSet, CharsetArg, DotHandlingPolicy, DotsArg, EmptyOutputPolicy, PolicyArg,
    SlugConfig, SlugError, SlugValidationPolicy, TransliterationPolicy, ValidationArg,
};

fn slug(input: &str, config: &SlugConfig) -> Result<String, SlugError> {
    slugify(input, config).map(|result| result.slug)
}

fn default_cli_config() -> SlugConfig {
    cli_slugify_config(
        '-',
        false,
        None,
        CharsetArg::UnicodeAlphanumeric,
        DotsArg::Replace,
        ValidationArg::NoValidation,
        None,
    )
}

#[test]
fn readme_default_unicode_slugs() {
    let config = SlugConfig::default();
    assert_eq!(slug("Hello", &config), Ok("hello".to_string()));
    assert_eq!(slug("Hello World", &config), Ok("hello-world".to_string()));
    assert_eq!(slug("Hello,  world!!!", &config), Ok("hello-world".to_string()));
    assert_eq!(slug("-- already -- spaced --", &config), Ok("already-spaced".to_string()));
    assert_eq!(slug("!!!", &config), Ok(String::new()));
}

#[test]
fn readme_local_path_segment_with_fallback() {
    let config = SlugConfig {
        replacement_delimiter: '-',
        lowercase_enabled: true,
        max_slug_chars: None,
        allowed_character_set: AllowedCharacterSet::UnicodeAlphanumericCharacters,
        dot_handling_policy: DotHandlingPolicy::ReplaceAllDots,
        transliteration_policy: TransliterationPolicy::NoTransliteration,
        validation_policy: SlugValidationPolicy::LocalPathSegment,
        empty_output_policy: EmptyOutputPolicy::UseFallbackSlug("fallback".to_string()),
    };
    assert_eq!(slug("Ubuntu 16.04", &config), Ok("ubuntu-16-04".to_string()));
    assert_eq!(slug("你好，世界", &config), Ok("你好-世界".to_string()));
    assert_eq!(slug("!!!", &config), Ok("fallback".to_string()));
}

#[test]
fn readme_dot_handling() {
    let replace_all = SlugConfig {
        dot_handling_policy: DotHandlingPolicy::ReplaceAllDots,
        ..SlugConfig::default()
    };
    let preserve_version = SlugConfig {
        dot_handling_policy: DotHandlingPolicy::PreserveDotsBetweenDecimalDigits,
        ..SlugConfig::default()
    };
    assert_eq!(slug("Ubuntu 16.04", &replace_all), Ok("ubuntu-16-04".to_string()));
    assert_eq!(
        slug("T.U.S.F.G.E.3.0.8", &preserve_version),
        Ok("t-u-s-f-g-e-3.0.8".to_string())
    );
}

#[test]
fn readme_truncation_and_empty_output() {
    let truncated = SlugConfig {
        max_slug_chars: Some(8),
        ..SlugConfig::default()
    };
    let fallback_after_truncation = SlugConfig {
        max_slug_chars: Some(0),
        empty_output_policy: EmptyOutputPolicy::UseFallbackSlug("fallback".to_string()),
        ..SlugConfig::default()
    };
    assert_eq!(slug("Long Example", &truncated), Ok("long-exa".to_string()));
    assert_eq!(
        slug("Long Example", &fallback_after_truncation),
        Ok("fallback".to_string())
    );
}

#[test]
fn readme_validation_only() {
    assert_eq!(validate_slug("safe-name", SlugValidationPolicy::LocalPathSegment), Ok(()));
    assert_eq!(
        validate_slug("a/b", SlugValidationPolicy::LocalPathSegment),
        Err(SlugError::PathSegmentSeparator { character: '/' })
    );
    assert_eq!(
        validate_slug("a?b", SlugValidationPolicy::UrlPathSegment),
        Err(SlugError::UrlPathSegmentReservedCharacter { character: '?' })
    );
}

#[test]
fn cli_default_options_slugify_unicode_text() {
    let result = slugify("Hello, 世界!", &default_cli_config()).unwrap();
    assert_eq!(result.slug, "hello-世界");
    assert!(result.changed_from_input);
}

#[test]
fn cli_lowercasing_counts_as_a_change() {
    let result = slugify("Already-Slug", &default_cli_config()).unwrap();
    assert_eq!(result.slug, "already-slug");
    assert!(result.changed_from_input);
}

#[test]
fn unchanged_input_is_reported_unchanged() {
    let result = slugify("already-slug", &SlugConfig::default()).unwrap();
    assert_eq!(result.slug, "already-slug");
    assert!(!result.changed_from_input);
}

#[test]
fn cli_charset_and_max_chars_options() {
    let config = cli_slugify_config(
        '-',
        false,
        Some(8),
        CharsetArg::AsciiAlphanumeric,
        DotsArg::Replace,
        ValidationArg::NoValidation,
        None,
    );
    assert_eq!(slug("Rust 版 CLI Tool", &config), Ok("rust-cli".to_string()));
}

#[test]
fn cli_no_lowercase_option_keeps_case() {
    let config = cli_slugify_config(
        '-',
        true,
        None,
        CharsetArg::UnicodeAlphanumeric,
        DotsArg::Replace,
        ValidationArg::NoValidation,
        None,
    );
    assert_eq!(slug("Hello World", &config), Ok("Hello-World".to_string()));
}

#[test]
fn cli_fallback_and_validation_options() {
    let with_fallback = cli_slugify_config(
        '-',
        false,
        None,
        CharsetArg::UnicodeAlphanumeric,
        DotsArg::Replace,
        ValidationArg::NoValidation,
        Some("item".to_string()),
    );
    assert_eq!(slug("!!!", &with_fallback), Ok("item".to_string()));
    let url_checked = cli_slugify_config(
        '-',
        false,
        None,
        CharsetArg::UnicodeAlphanumeric,
        DotsArg::Replace,
        ValidationArg::UrlPath,
        None,
    );
    assert_eq!(slug("!!!", &url_checked), Err(SlugError::EmptyPathSegment));
}

#[test]
fn cli_choices_map_to_library_values() {
    assert_eq!(
        CharsetArg::UnicodeLettersDigits.into_lib(),
        AllowedCharacterSet::UnicodeLettersAndDecimalDigits
    );
    assert_eq!(
        DotsArg::PreserveBetweenDigits.into_lib(),
        DotHandlingPolicy::PreserveDotsBetweenDecimalDigits
    );
    assert_eq!(ValidationArg::LocalPath.into_lib(), SlugValidationPolicy::LocalPathSegment);
    assert_eq!(PolicyArg::UrlPath.into_lib(), SlugValidationPolicy::UrlPathSegment);
    assert_eq!(validate_slug("my-slug", PolicyArg::UrlPath.into_lib()), Ok(()));
    assert_eq!(
        validate_slug("bad/slug", PolicyArg::LocalPath.into_lib()),
        Err(SlugError::PathSegmentSeparator { character: '/' })
    );
}

#[test]
fn max_chars_law_on_examples() {
    for max in 0..12 {
        let config = SlugConfig {
            max_slug_chars: Some(max),
            ..SlugConfig::default()
        };
        let s = slug("a bb ccc dddd", &config).unwrap();
        assert!(s.chars().count() <= max);
        assert!(!s.ends_with('-'));
    }
}

#[test]
fn filter_collapses_runs_on_examples() {
    let s = slug("  a  --  b ** c  ", &SlugConfig::default()).unwrap();
    assert_eq!(s, "a-b-c");
    assert!(!s.contains("--"));
}

#[test]
fn replaced_dots_vanish_on_example() {
    let s = slug("v1.2.3...x", &SlugConfig::default()).unwrap();
    assert_eq!(s, "v1-2-3-x");
}

#[test]
fn pattern_order_does_not_matter() {
    static FORWARD: &[(&str, &str)] = &[("a", "1"), ("ab", "2"), ("abc", "3"), ("b", "4")];
    static BACKWARD: &[(&str, &str)] = &[("b", "4"), ("abc", "3"), ("ab", "2"), ("a", "1")];
    let forward = SlugConfig {
        transliteration_policy: TransliterationPolicy::StaticReplacementMap(FORWARD),
        ..SlugConfig::default()
    };
    let backward = SlugConfig {
        transliteration_policy: TransliterationPolicy::StaticReplacementMap(BACKWARD),
        ..SlugConfig::default()
    };
    for input in ["abcab", "ab a b", "xabx", "ba"] {
        assert_eq!(slug(input, &forward), slug(input, &backward));
    }
    assert_eq!(slug("abcab", &forward), Ok("32".to_string()));
}

#[test]
fn repeated_pattern_uses_the_first_replacement_in_character_order() {
    static MAP: &[(&str, &str)] = &[("x", "second"), ("x", "first")];
    static SWAPPED: &[(&str, &str)] = &[("x", "first"), ("x", "second")];
    let config = SlugConfig {
        transliteration_policy: TransliterationPolicy::StaticReplacementMap(MAP),
        ..SlugConfig::default()
    };
    let swapped = SlugConfig {
        transliteration_policy: TransliterationPolicy::StaticReplacementMap(SWAPPED),
        ..SlugConfig::default()
    };
    assert_eq!(slug("x", &config), Ok("first".to_string()));
    assert_eq!(slug("x", &swapped), Ok("first".to_string()));
    static PREFIX: &[(&str, &str)] = &[("x", "ab"), ("x", "a")];
    let prefix = SlugConfig {
        transliteration_policy: TransliterationPolicy::StaticReplacementMap(PREFIX),
        ..SlugConfig::default()
    };
    assert_eq!(slug("x", &prefix), Ok("a".to_string()));
}

#[test]
fn fallback_is_not_lowercased_or_truncated() {
    let config = SlugConfig {
        max_slug_chars: Some(2),
        empty_output_policy: EmptyOutputPolicy::UseFallbackSlug("Keep_Case".to_string()),
        ..SlugConfig::default()
    };
    assert_eq!(slug("!!!", &config), Ok("Keep_Case".to_string()));
}

#[test]
fn leftmost_offending_character_is_reported() {
    assert_eq!(
        validate_slug("a b/c", SlugValidationPolicy::LocalPathSegment),
        Err(SlugError::PathSegmentWhitespace { character: ' ' })
    );
    assert_eq!(
        validate_slug("a%b/c", SlugValidationPolicy::UrlPathSegment),
        Err(SlugError::PathSegmentSeparator { character: '/' })
    );
    assert_eq!(
        validate_slug("a#b?c", SlugValidationPolicy::UrlPathSegment),
        Err(SlugError::UrlPathSegmentReservedCharacter { character: '#' })
    );
}

#[test]
fn url_segments_are_local_segments() {
    for value in ["my-slug", "ok.ok", "x..", "..y", "a?b", "", "."] {
        if validate_slug(value, SlugValidationPolicy::UrlPathSegment).is_ok() {
            assert_eq!(validate_slug(value, SlugValidationPolicy::LocalPathSegment), Ok(()));
        }
    }
    assert_eq!(validate_slug("x..", SlugValidationPolicy::UrlPathSegment), Ok(()));
}

#[test]
fn unicode_whitespace_and_controls_are_rejected() {
    assert_eq!(
        validate_slug("a\u{3000}b", SlugValidationPolicy::LocalPathSegment),
        Err(SlugError::PathSegmentWhitespace { character: '\u{3000}' })
    );
    assert_eq!(
        validate_slug("a\u{0085}b", SlugValidationPolicy::LocalPathSegment),
        Err(SlugError::PathSegmentWhitespace { character: '\u{0085}' })
    );
    assert_eq!(
        validate_slug("a\u{009f}b", SlugValidationPolicy::LocalPathSegment),
        Err(SlugError::PathSegmentControlCharacter { character: '\u{009f}' })
    );
}

#[test]
fn general_categories_drive_the_letter_and_digit_set() {
    let letters = SlugConfig {
        allowed_character_set: AllowedCharacterSet::UnicodeLettersAndDecimalDigits,
        dot_handling_policy: DotHandlingPolicy::PreserveDotsBetweenDecimalDigits,
        ..SlugConfig::default()
    };
    assert_eq!(slug("Élan ٣.٤ ½", &letters), Ok("élan-٣.٤".to_string()));
    assert_eq!(slug("ǅ ʰ", &letters), Ok("ǆ-ʰ".to_string()));
}

#[test]
fn lowercasing_uses_unicode_rules() {
    assert_eq!(slug("ÀÉÎ ΣΑΣ", &SlugConfig::default()), Ok("àéî-σας".to_string()));
}

#[test]
fn custom_delimiter_and_case() {
    let config = SlugConfig {
        replacement_delimiter: '_',
        lowercase_enabled: false,
        ..SlugConfig::default()
    };
    assert_eq!(slug("  Big  Deal ", &config), Ok("Big_Deal".to_string()));
}

#[test]
fn complete_slug_cuts_falls_back_and_validates() {
    let config = SlugConfig {
        max_slug_chars: Some(6),
        ..SlugConfig::default()
    };
    let result = complete_slug("Hello World", "hello-world", &config).unwrap();
    assert_eq!(result.slug, "hello");
    assert!(result.changed_from_input);
    let strict = SlugConfig {
        validation_policy: SlugValidationPolicy::LocalPathSegment,
        empty_output_policy: EmptyOutputPolicy::UseFallbackSlug("..".to_string()),
        ..SlugConfig::default()
    };
    assert_eq!(complete_slug("x", "", &strict), Err(SlugError::PathSegmentDotValue));
}

#[test]
fn filter_marked_follows_the_marks() {
    let input: Vec<char> = "1.2 a..b".chars().collect();
    let kept = vec![true, false, true, false, true, false, false, true];
    let digits = vec![true, false, true, false, false, false, false, false];
    assert_eq!(
        filter_marked(&input, &kept, &digits, DotHandlingPolicy::PreserveDotsBetweenDecimalDigits, '-')
            .into_iter()
            .collect::<String>(),
        "1.2-a-b"
    );
    assert_eq!(
        filter_marked(&input, &kept, &digits, DotHandlingPolicy::PreserveAllDots, '-')
            .into_iter()
            .collect::<String>(),
        "1.2-a..b"
    );
}

#[test]
fn error_messages() {
    assert_eq!(
        SlugError::EmptyTransliterationPattern.message(),
        "transliteration patterns must not be empty"
    );
    assert_eq!(SlugError::EmptyPathSegment.message(), "path segment must not be empty");
    assert_eq!(
        SlugError::PathSegmentSeparator { character: '/' }.message(),
        "path segment must not contain separator `/`"
    );
    assert_eq!(
        SlugError::PathSegmentWhitespace { character: ' ' }.message(),
        "path segment must not contain whitespace ` `"
    );
    assert_eq!(
        SlugError::PathSegmentControlCharacter { character: '\u{0007}' }.message(),
        "path segment must not contain control character U+0007"
    );
    assert_eq!(
        SlugError::PathSegmentControlCharacter { character: '\u{009f}' }.message(),
        "path segment must not contain control character U+009F"
    );
    assert_eq!(
        SlugError::PathSegmentControlCharacter { character: '\u{1F600}' }.message(),
        "path segment must not contain control character U+1F600"
    );
    assert_eq!(
        SlugError::PathSegmentDotValue.message(),
        "path segment must not be `.` or `..`"
    );
    assert_eq!(
        SlugError::UrlPathSegmentReservedCharacter { character: '#' }.message(),
        "URL path segment must not contain reserved character `#`"
    );
}

#[test]
fn default_config_fields() {
    let config = SlugConfig::default();
    assert_eq!(config.replacement_delimiter, '-');
    assert!(config.lowercase_enabled);
    assert_eq!(config.max_slug_chars, None);
    assert_eq!(config.validation_policy, SlugValidationPolicy::NoValidation);
    assert_eq!(config.empty_output_policy, EmptyOutputPolicy::KeepEmptySlug);
}

#[test]
fn whitespace_and_control_characters_are_told_apart() {
    let local = SlugValidationPolicy::LocalPathSegment;
    for ws in ['\u{9}', '\u{d}', ' ', '\u{85}', '\u{a0}', '\u{1680}', '\u{2000}', '\u{200a}', '\u{2028}', '\u{2029}', '\u{202f}', '\u{205f}', '\u{3000}'] {
        let value = format!("a{ws}b");
        assert_eq!(
            validate_slug(&value, local),
            Err(SlugError::PathSegmentWhitespace { character: ws })
        );
    }
    for cc in ['\u{0}', '\u{1f}', '\u{7f}', '\u{84}', '\u{86}', '\u{9f}'] {
        let value = format!("a{cc}b");
        assert_eq!(
            validate_slug(&value, local),
            Err(SlugError::PathSegmentControlCharacter { character: cc })
        );
    }
    for ok in ["a\u{200b}b", "a\u{180e}b", "a\u{a1}b", "a\u{2030}b"] {
        assert_eq!(validate_slug(ok, local), Ok(()));
    }
    assert_eq!(
        validate_slug("a%b", SlugValidationPolicy::UrlPathSegment),
        Err(SlugError::UrlPathSegmentReservedCharacter { character: '%' })
    );
    assert_eq!(validate_slug("a%b", local), Ok(()));
}

#[test]
fn empty_pattern_is_refused_even_for_empty_input() {
    static MAP: &[(&str, &str)] = &[("a", "b"), ("", "x")];
    let config = SlugConfig {
        transliteration_policy: TransliterationPolicy::StaticReplacementMap(MAP),
        ..SlugConfig::default()
    };
    assert_eq!(slugify("", &config), Err(SlugError::EmptyTransliterationPattern));
}

#[test]
fn validated_slugs_are_path_segments() {
    let config = SlugConfig {
        dot_handling_policy: DotHandlingPolicy::PreserveAllDots,
        validation_policy: SlugValidationPolicy::UrlPathSegment,
        ..SlugConfig::default()
    };
    assert_eq!(slug("..", &config), Err(SlugError::PathSegmentDotValue));
    assert_eq!(slug("a..b", &config), Ok("a..b".to_string()));
    for input in ["x/y", "x?y", "x#y", "50% off", "tab\there"] {
        let s = slug(input, &config).unwrap();
        assert!(!s.is_empty());
        assert!(!s.contains(|c: char| "/\\?#%".contains(c) || c.is_whitespace()));
    }
}

#[test]
fn unlowered_slug_has_no_outer_delimiters() {
    let config = SlugConfig {
        lowercase_enabled: false,
        replacement_delimiter: '+',
        ..SlugConfig::default()
    };
    let s = slug("++ Mixed Case ++", &config).unwrap();
    assert_eq!(s, "Mixed+Case");
    assert!(!s.starts_with('+') && !s.ends_with('+'));
}

#[test]
fn pattern_order_with_repeated_patterns() {
    static FIRST: &[(&str, &str)] = &[("x", "one"), ("ab", "q"), ("x", "two"), ("x", "two")];
    static SECOND: &[(&str, &str)] = &[("x", "two"), ("ab", "q"), ("x", "one")];
    let first = SlugConfig {
        transliteration_policy: TransliterationPolicy::StaticReplacementMap(FIRST),
        ..SlugConfig::default()
    };
    let second = SlugConfig {
        transliteration_policy: TransliterationPolicy::StaticReplacementMap(SECOND),
        ..SlugConfig::default()
    };
    for input in ["x", "abx", "x ab x", "xx"] {
        assert_eq!(slug(input, &first), slug(input, &second));
    }
    assert_eq!(slug("x ab", &first), Ok("one-q".to_string()));
}

#[test]
fn whitespace_and_control_sets() {
    assert_eq!(
        validate_slug("a\u{2028}b", SlugValidationPolicy::LocalPathSegment),
        Err(SlugError::PathSegmentWhitespace { character: '\u{2028}' })
    );
    assert_eq!(
        validate_slug("a\u{00a0}b", SlugValidationPolicy::LocalPathSegment),
        Err(SlugError::PathSegmentWhitespace { character: '\u{00a0}' })
    );
    assert_eq!(
        validate_slug("a\u{001f}b", SlugValidationPolicy::LocalPathSegment),
        Err(SlugError::PathSegmentControlCharacter { character: '\u{001f}' })
    );
    assert_eq!(validate_slug("a\u{200b}b", SlugValidationPolicy::LocalPathSegment), Ok(()));
    assert_eq!(validate_slug("a\u{00ad}b", SlugValidationPolicy::LocalPathSegment), Ok(()));
}

#[test]
fn truncation_composes_on_example() {
    let cut = |max: usize, text: &str| {
        let config = SlugConfig {
            max_slug_chars: Some(max),
            ..SlugConfig::default()
        };
        slug(text, &config).unwrap()
    };
    for n in 0..14 {
        for m in 0..=n {
            assert_eq!(cut(m, &cut(n, "ab cd-ef  gh ij")), cut(m, "ab cd-ef  gh ij"));
        }
    }
}

#[test]
fn restricted_sets_admit_no_dots_dashes_or_spaces() {
    for set in [
        AllowedCharacterSet::AsciiAlphanumericCharacters,
        AllowedCharacterSet::UnicodeLettersAndDecimalDigits,
    ] {
        let config = SlugConfig {
            allowed_character_set: set,
            replacement_delimiter: '_',
            ..SlugConfig::default()
        };
        assert_eq!(slug("a.b-c\u{3000}d\u{2003}e", &config), Ok("a_b_c_d_e".to_string()));
    }
}

#[test]
fn ascii_slugs_are_stable() {
    for policy in [DotHandlingPolicy::ReplaceAllDots, DotHandlingPolicy::PreserveAllDots] {
        for lowercase_enabled in [true, false] {
            for max_slug_chars in [None, Some(7)] {
                let config = SlugConfig {
                    allowed_character_set: AllowedCharacterSet::AsciiAlphanumericCharacters,
                    dot_handling_policy: policy,
                    lowercase_enabled,
                    max_slug_chars,
                    ..SlugConfig::default()
                };
                for input in ["Hello, World! v1.2", "--Ünïcode  Text--", "a.b..c -- D", "", "!!!"] {
                    let first = slugify(input, &config).unwrap();
                    let second = slugify(&first.slug, &config).unwrap();
                    assert_eq!(second.slug, first.slug);
                    assert!(!second.changed_from_input);
                    assert!(!first.slug.starts_with('-') && !first.slug.ends_with('-'));
                    assert!(!first.slug.contains("--"));
                }
            }
        }
    }
    let config = SlugConfig {
        allowed_character_set: AllowedCharacterSet::AsciiAlphanumericCharacters,
        dot_handling_policy: DotHandlingPolicy::PreserveAllDots,
        ..SlugConfig::default()
    };
    assert_eq!(slug("Hello, World! v1.2", &config), Ok("hello-world-v1.2".to_string()));
    assert_eq!(slug("hello-world-v1.2", &config), Ok("hello-world-v1.2".to_string()));
}

#[test]
fn longest_pattern_then_copy_step_by_step() {
    static MAP: &[(&str, &str)] = &[("ä", "ae"), ("äu", "aeu"), ("ß", "ss")];
    let config = SlugConfig {
        transliteration_policy: TransliterationPolicy::StaticReplacementMap(MAP),
        ..SlugConfig::default()
    };
    assert_eq!(slug("Häuser äß", &config), Ok("haeuser-aess".to_string()));
    assert_eq!(slug("", &config), Ok(String::new()));
}
