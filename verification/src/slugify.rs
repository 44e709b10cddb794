use vstd::prelude::*;

use crate::chars::{chars_equal, chars_to_string, str_chars};
use crate::config::{
    AllowedCharacterSet, DotHandlingPolicy, EmptyOutputPolicy, SlugConfig, SlugError, SlugResult, SlugValidationPolicy,
    TransliterationPolicy,
};
use crate::filter::{
    ascii_slug_char, ascii_slug_text, law_filter_keeps_ascii_slug_text, char_allowed, emittable, filter_chars, filtered, law_filter_collapses_runs,
    law_filter_emits_only_kept_characters,
};
use crate::transliterate::{
    apply_transliteration, law_pattern_order_is_irrelevant, pattern_pairs, same_entries,
    transliteration_outcome,
};
use crate::trim::{
    lemma_strip_leading_shape, lemma_strip_trailing_shape, strip_leading, strip_trailing,
    trim_delimiter, trim_matches, truncate_chars, truncated,
};
use crate::unicode::{is_ascii_char, str_to_lowercase, unicode_control, unicode_lowercase, unicode_whitespace};
use crate::validate::{
    is_dot_value, law_local_segment_rules, law_url_segment_rules, local_segment_error,
    validate_slug, validation_error, validation_outcome,
};

verus! {

/// Steps 2 to 7 on the transliterated text `t`: filter, trim the
/// delimiter, and lowercase if enabled.
pub open spec fn cased_text(t: Seq<char>, config: SlugConfig) -> Seq<char> {
    let d = config.replacement_delimiter;
    let kept = filtered(t, config.allowed_character_set, config.dot_handling_policy, d);
    let trimmed = trim_delimiter(kept, d);
    if config.lowercase_enabled {
        unicode_lowercase(trimmed)
    } else {
        trimmed
    }
}

/// Step 8: cut to `max_slug_chars`, if set.
pub open spec fn cut_text(cased: Seq<char>, config: SlugConfig) -> Seq<char> {
    match config.max_slug_chars {
        Some(max) => truncated(cased, max as nat, config.replacement_delimiter),
        None => cased,
    }
}

/// The slug that steps 2 to 8 make of the transliterated text `t`.
pub open spec fn generated_slug(t: Seq<char>, config: SlugConfig) -> Seq<char> {
    cut_text(cased_text(t, config), config)
}

/// Step 9: an empty slug becomes the fallback, verbatim, when one is given.
pub open spec fn after_empty_policy(s: Seq<char>, policy: EmptyOutputPolicy) -> Seq<char> {
    match policy {
        EmptyOutputPolicy::UseFallbackSlug(fallback) => if s.len() == 0 {
            fallback@
        } else {
            s
        },
        EmptyOutputPolicy::KeepEmptySlug => s,
    }
}

/// Steps 8 to 10 on the cased text: cut, empty handling, validation.
pub open spec fn completed(cased: Seq<char>, config: SlugConfig) -> Result<Seq<char>, SlugError> {
    let slug = after_empty_policy(cut_text(cased, config), config.empty_output_policy);
    match validation_error(slug, config.validation_policy) {
        Some(e) => Err(e),
        None => Ok(slug),
    }
}

/// The slug text, or the error, that `slugify` gives for `input` under `config`.
pub open spec fn slug_outcome(input: Seq<char>, config: SlugConfig) -> Result<Seq<char>, SlugError> {
    match transliteration_outcome(input, config.transliteration_policy) {
        Err(e) => Err(e),
        Ok(t) => completed(cased_text(t, config), config),
    }
}

/// Generate a slug from `input` using explicit caller-provided rules.
///
/// Processing is deterministic:
///
/// 1. Apply the transliteration policy.
/// 2. Walk characters left-to-right.
/// 3. Keep characters allowed by the character set.
/// 4. Apply the dot handling policy.
/// 5. Convert all other character runs to one `replacement_delimiter`.
/// 6. Trim leading and trailing `replacement_delimiter` characters.
/// 7. Lowercase if `lowercase_enabled` is `true`.
/// 8. Apply `max_slug_chars` if present, then strip any trailing
///    `replacement_delimiter` the cut exposed.
/// 9. Apply the empty output policy if the slug is empty.
/// 10. Validate according to the validation policy.
///
/// A fallback slug is inserted verbatim: it is validated (step 10) but is not
/// lowercased or truncated, because steps 7 and 8 already ran on the empty
/// slug it replaces.
pub fn slugify(input: &str, config: &SlugConfig) -> (r: Result<SlugResult, SlugError>)
    ensures
        match r {
            Ok(res) => {
                &&& slug_outcome(input@, *config) == Ok::<Seq<char>, SlugError>(res.slug@)
                &&& res.changed_from_input == (res.slug@ != input@)
            },
            Err(e) => slug_outcome(input@, *config) == Err::<Seq<char>, SlugError>(e),
        },
{
    let input_chars = str_chars(input);
    let transliterated = match apply_transliteration(
        str_chars(input),
        config.transliteration_policy,
    ) {
        Ok(v) => v,
        Err(e) => return Err(e),
    };
    let d = config.replacement_delimiter;
    let kept = filter_chars(
        &transliterated,
        config.allowed_character_set,
        config.dot_handling_policy,
        d,
    );
    let trimmed = trim_matches(&kept, d);
    let lowered = if config.lowercase_enabled {
        let text = chars_to_string(&trimmed);
        let lower = str_to_lowercase(text.as_str());
        str_chars(lower.as_str())
    } else {
        trimmed
    };
    complete_slug_chars(&input_chars, lowered, config)
}

/// Steps 8 to 10 of slug generation, given the cased text: cut to
/// `max_slug_chars`, replace an empty slug by the fallback, validate, and
/// compare the slug with `input`.
pub fn complete_slug(input: &str, cased: &str, config: &SlugConfig) -> (r: Result<
    SlugResult,
    SlugError,
>)
    ensures
        match r {
            Ok(res) => {
                &&& completed(cased@, *config) == Ok::<Seq<char>, SlugError>(res.slug@)
                &&& res.changed_from_input == (res.slug@ != input@)
            },
            Err(e) => completed(cased@, *config) == Err::<Seq<char>, SlugError>(e),
        },
{
    let input_chars = str_chars(input);
    complete_slug_chars(&input_chars, str_chars(cased), config)
}

fn complete_slug_chars(input_chars: &Vec<char>, cased: Vec<char>, config: &SlugConfig) -> (r: Result<
    SlugResult,
    SlugError,
>)
    ensures
        match r {
            Ok(res) => {
                &&& completed(cased@, *config) == Ok::<Seq<char>, SlugError>(res.slug@)
                &&& res.changed_from_input == (res.slug@ != input_chars@)
            },
            Err(e) => completed(cased@, *config) == Err::<Seq<char>, SlugError>(e),
        },
{
    let d = config.replacement_delimiter;
    let cut = match config.max_slug_chars {
        Some(max_slug_chars) => truncate_chars(cased, max_slug_chars, d),
        None => cased,
    };
    let slug_chars = match &config.empty_output_policy {
        EmptyOutputPolicy::UseFallbackSlug(fallback) => {
            if cut.len() == 0 {
                str_chars(fallback.as_str())
            } else {
                cut
            }
        },
        EmptyOutputPolicy::KeepEmptySlug => cut,
    };
    let slug = chars_to_string(&slug_chars);
    match validate_slug(slug.as_str(), config.validation_policy) {
        Ok(()) => {},
        Err(e) => return Err(e),
    }
    let changed_from_input = !chars_equal(&slug_chars, input_chars);
    Ok(SlugResult { slug, changed_from_input })
}


/// The slug is the fallback of `config`, verbatim.
pub open spec fn is_fallback(s: Seq<char>, config: SlugConfig) -> bool {
    config.empty_output_policy matches EmptyOutputPolicy::UseFallbackSlug(f) && s == f@
}

/// Every slug that `slugify` returns passes the configured validation.
pub proof fn law_slug_passes_validation(input: Seq<char>, config: SlugConfig)
    ensures
        slug_outcome(input, config) matches Ok(s) ==> validation_error(s, config.validation_policy)
            is None,
{
}

/// A map with an empty pattern is refused, whatever the input.
pub proof fn law_empty_pattern_refused(input: Seq<char>, config: SlugConfig)
    requires
        config.transliteration_policy matches TransliterationPolicy::StaticReplacementMap(map)
            && crate::transliterate::has_empty_pattern(pattern_pairs(map@)),
    ensures
        slug_outcome(input, config) == Err::<Seq<char>, SlugError>(
            SlugError::EmptyTransliterationPattern,
        ),
{
}

/// With path-segment validation, every slug returned is one path segment:
/// non-empty, neither `.` nor `..`, and free of `/`, `\`, whitespace and
/// control characters (and, for URL path segments, of `?`, `#` and `%`).
pub proof fn law_validated_slug_is_a_segment(input: Seq<char>, config: SlugConfig)
    requires
        config.validation_policy != SlugValidationPolicy::NoValidation,
    ensures
        slug_outcome(input, config) matches Ok(s) ==> {
            &&& s.len() > 0
            &&& !is_dot_value(s)
            &&& forall|i: int|
                0 <= i < s.len() ==> {
                    &&& s[i] != '/'
                    &&& s[i] != '\\'
                    &&& !unicode_whitespace(#[trigger] s[i])
                    &&& !unicode_control(s[i])
                }
            &&& config.validation_policy == SlugValidationPolicy::UrlPathSegment ==> forall|i: int|
                0 <= i < s.len() ==> #[trigger] s[i] != '?' && s[i] != '#' && s[i] != '%'
        },
{
    if let Ok(s) = slug_outcome(input, config) {
        law_local_segment_rules(s);
        law_url_segment_rules(s);
        assert(local_segment_error(s) is None);
    }
}

/// Validation runs last: the outcome is that of the same configuration
/// without validation, followed by validating its slug.
pub proof fn law_validation_runs_last(input: Seq<char>, config: SlugConfig)
    ensures
        slug_outcome(input, config) == match slug_outcome(
            input,
            SlugConfig { validation_policy: SlugValidationPolicy::NoValidation, ..config },
        ) {
            Err(e) => Err(e),
            Ok(s) => match validation_outcome(s, config.validation_policy) {
                Ok(_) => Ok::<Seq<char>, SlugError>(s),
                Err(e) => Err(e),
            },
        },
{
}

/// The fallback replaces an empty slug, verbatim: the outcome is that of the
/// same configuration keeping empty slugs and without validation, with an
/// empty slug replaced by the fallback, then validated.
pub proof fn law_fallback_replaces_empty_slug(
    input: Seq<char>,
    config: SlugConfig,
    fallback: String,
)
    requires
        config.empty_output_policy == EmptyOutputPolicy::UseFallbackSlug(fallback),
    ensures
        slug_outcome(input, config) == match slug_outcome(
            input,
            SlugConfig {
                empty_output_policy: EmptyOutputPolicy::KeepEmptySlug,
                validation_policy: SlugValidationPolicy::NoValidation,
                ..config
            },
        ) {
            Err(e) => Err(e),
            Ok(s0) => {
                let s = if s0.len() == 0 {
                    fallback@
                } else {
                    s0
                };
                match validation_outcome(s, config.validation_policy) {
                    Ok(_) => Ok::<Seq<char>, SlugError>(s),
                    Err(e) => Err(e),
                }
            },
        },
{
}

/// An empty generated slug is replaced by the fallback verbatim (neither
/// lowercased nor truncated); the fallback is then validated like any slug.
pub proof fn law_fallback_is_verbatim(input: Seq<char>, config: SlugConfig, fallback: String)
    requires
        config.empty_output_policy == EmptyOutputPolicy::UseFallbackSlug(fallback),
        transliteration_outcome(input, config.transliteration_policy) matches Ok(t)
            && generated_slug(t, config).len() == 0,
    ensures
        slug_outcome(input, config) == match validation_outcome(
            fallback@,
            config.validation_policy,
        ) {
            Ok(_) => Ok::<Seq<char>, SlugError>(fallback@),
            Err(e) => Err(e),
        },
{
}

proof fn lemma_truncated_shape(s: Seq<char>, max: nat, d: char)
    ensures
        truncated(s, max, d).len() <= max,
        truncated(s, max, d).len() <= s.len(),
        truncated(s, max, d) =~= s.take(truncated(s, max, d).len() as int),
        truncated(s, max, d).len() == 0 || truncated(s, max, d).last() != d,
{
    let cut = if s.len() > max {
        s.take(max as int)
    } else {
        s
    };
    lemma_strip_trailing_shape(cut, d);
    let r = strip_trailing(cut, d);
    assert(cut.take(r.len() as int) =~= s.take(r.len() as int));
}

proof fn lemma_trim_shape(s: Seq<char>, d: char)
    ensures
        trim_delimiter(s, d).len() == 0 || (trim_delimiter(s, d)[0] != d && trim_delimiter(
            s,
            d,
        ).last() != d),
        exists|a: int|
            0 <= a <= s.len() && a + trim_delimiter(s, d).len() <= s.len() && trim_delimiter(s, d)
                =~= #[trigger] s.subrange(a, a + trim_delimiter(s, d).len()),
{
    let l = strip_leading(s, d);
    lemma_strip_leading_shape(s, d);
    lemma_strip_trailing_shape(l, d);
    let r = strip_trailing(l, d);
    let a = s.len() - l.len();
    assert(r =~= s.subrange(a, a + r.len()));
    if r.len() > 0 {
        assert(r[0] == l[0]);
    }
}

/// `max_slug_chars` counts characters after lowercasing: a slug that is not
/// the fallback holds at most `max_slug_chars` characters and does not end
/// with the delimiter.
pub proof fn law_slug_respects_max_chars(input: Seq<char>, config: SlugConfig, max: usize)
    requires
        config.max_slug_chars == Some(max),
    ensures
        slug_outcome(input, config) matches Ok(s) ==> is_fallback(s, config) || (s.len() <= max
            && (s.len() == 0 || s.last() != config.replacement_delimiter)),
{
    if let Ok(t) = transliteration_outcome(input, config.transliteration_policy) {
        let d = config.replacement_delimiter;
        lemma_truncated_shape(cased_text(t, config), max as nat, d);
    }
}

/// Without lowercasing, a slug that is not the fallback neither starts nor
/// ends with the delimiter, and each of its characters is an allowed
/// character, a kept dot, or the delimiter. Where the delimiter is neither an
/// allowed character nor a kept dot, it never stands twice in a row.
pub proof fn law_unlowered_slug_shape(input: Seq<char>, config: SlugConfig)
    requires
        !config.lowercase_enabled,
    ensures
        slug_outcome(input, config) matches Ok(s) ==> is_fallback(s, config) || {
            &&& s.len() == 0 || (s[0] != config.replacement_delimiter && s.last()
                != config.replacement_delimiter)
            &&& forall|k: int|
                0 <= k < s.len() ==> emittable(
                    #[trigger] s[k],
                    config.allowed_character_set,
                    config.dot_handling_policy,
                    config.replacement_delimiter,
                )
            &&& !char_allowed(config.replacement_delimiter, config.allowed_character_set) && (
            config.replacement_delimiter != '.' || config.dot_handling_policy
                == DotHandlingPolicy::ReplaceAllDots) ==> forall|k: int|
                0 <= k && k + 1 < s.len() ==> !(#[trigger] s[k] == config.replacement_delimiter
                    && s[k + 1] == config.replacement_delimiter)
        },
{
    if let Ok(t) = transliteration_outcome(input, config.transliteration_policy) {
        let d = config.replacement_delimiter;
        let set = config.allowed_character_set;
        let policy = config.dot_handling_policy;
        let kept = filtered(t, set, policy, d);
        law_filter_emits_only_kept_characters(t, set, policy, d);
        if !char_allowed(d, set) && (d != '.' || policy == DotHandlingPolicy::ReplaceAllDots) {
            law_filter_collapses_runs(t, set, policy, d);
        }
        let trimmed = trim_delimiter(kept, d);
        lemma_trim_shape(kept, d);
        let a = choose|a: int|
            0 <= a <= kept.len() && a + trimmed.len() <= kept.len() && trimmed =~= #[trigger] kept.subrange(
                a,
                a + trimmed.len(),
            );
        assert forall|k: int| 0 <= k < trimmed.len() implies emittable(
            #[trigger] trimmed[k],
            set,
            policy,
            d,
        ) by {
            assert(trimmed[k] == kept[a + k]);
        }
        assert forall|k: int| 0 <= k && k + 1 < trimmed.len() implies trimmed[k] == kept[a + k]
            && #[trigger] trimmed[k + 1] == kept[a + k + 1] by {}
        if let Some(max) = config.max_slug_chars {
            lemma_truncated_shape(trimmed, max as nat, d);
            let g = truncated(trimmed, max as nat, d);
            assert forall|k: int| 0 <= k < g.len() implies emittable(#[trigger] g[k], set, policy, d) by {
                assert(g[k] == trimmed[k]);
            }
            assert forall|k: int| 0 <= k && k + 1 < g.len() implies g[k] == trimmed[k]
                && #[trigger] g[k + 1] == trimmed[k + 1] by {}
            if g.len() > 0 {
                assert(g[0] == trimmed[0]);
            }
        }
    }
}

/// Pattern order in a static replacement map does not matter: two
/// configurations whose maps hold the same pairs, in any order, give the
/// same outcome for every input.
pub proof fn law_slug_ignores_pattern_order(
    input: Seq<char>,
    config: SlugConfig,
    m1: &'static [(&'static str, &'static str)],
    m2: &'static [(&'static str, &'static str)],
)
    requires
        config.transliteration_policy == TransliterationPolicy::StaticReplacementMap(m1),
        same_entries(pattern_pairs(m1@), pattern_pairs(m2@)),
    ensures
        slug_outcome(input, config) == slug_outcome(
            input,
            SlugConfig {
                transliteration_policy: TransliterationPolicy::StaticReplacementMap(m2),
                ..config
            },
        ),
{
    let p1 = pattern_pairs(m1@);
    let p2 = pattern_pairs(m2@);
    law_pattern_order_is_irrelevant(input, p1, p2);
    crate::transliterate::lemma_same_entries_empty_pattern(p1, p2);
}

/// `l` is what lowercasing makes of the ASCII character `c` in place: a
/// small ASCII letter for a capital one, `c` itself for any other.
pub open spec fn ascii_lowered(c: char, l: char) -> bool {
    if 'A' <= c && c <= 'Z' {
        'a' <= l && l <= 'z'
    } else {
        l == c
    }
}

/// Lowercasing maps ASCII text character by character: each capital letter
/// to a small letter and every other character to itself.
pub open spec fn lowercase_maps_ascii() -> bool {
    forall|t: Seq<char>|
        #![trigger unicode_lowercase(t)]
        (forall|i: int| 0 <= i < t.len() ==> is_ascii_char(#[trigger] t[i])) ==> {
            &&& unicode_lowercase(t).len() == t.len()
            &&& forall|i: int|
                0 <= i < t.len() ==> ascii_lowered(#[trigger] t[i], unicode_lowercase(t)[i])
        }
}

/// An ASCII slug text that does not end with `-` either and, where
/// `no_capitals`, holds no capital letter.
pub open spec fn ascii_slug(s: Seq<char>, policy: DotHandlingPolicy, no_capitals: bool) -> bool {
    &&& ascii_slug_text(s, policy)
    &&& s.len() == 0 || s.last() != '-'
    &&& no_capitals ==> forall|i: int| 0 <= i < s.len() ==> !('A' <= #[trigger] s[i] && s[i] <= 'Z')
}

proof fn lemma_ascii_slug_prefix(s: Seq<char>, policy: DotHandlingPolicy, no_capitals: bool, n: int)
    requires
        ascii_slug_text(s, policy),
        no_capitals ==> forall|i: int| 0 <= i < s.len() ==> !('A' <= #[trigger] s[i] && s[i] <= 'Z'),
        0 <= n <= s.len(),
        n == 0 || s[n - 1] != '-',
    ensures
        ascii_slug(s.take(n), policy, no_capitals),
{
    let p = s.take(n);
    assert forall|i: int| 0 <= i < p.len() implies ascii_slug_char(#[trigger] p[i], policy) by {
        assert(p[i] == s[i]);
    }
    assert forall|k: int| 0 <= k && k + 1 < p.len() implies !(#[trigger] p[k] == '-' && p[k + 1]
        == '-') by {
        assert(p[k] == s[k] && p[k + 1] == s[k + 1]);
    }
    if no_capitals {
        assert forall|i: int| 0 <= i < p.len() implies !('A' <= #[trigger] p[i] && p[i] <= 'Z') by {
            assert(p[i] == s[i]);
        }
    }
}

proof fn lemma_ascii_slug_lowered(t: Seq<char>, policy: DotHandlingPolicy)
    requires
        ascii_slug(t, policy, false),
        lowercase_maps_ascii(),
    ensures
        ascii_slug(unicode_lowercase(t), policy, true),
        ascii_slug(t, policy, true) ==> unicode_lowercase(t) == t,
{
    assert forall|i: int| 0 <= i < t.len() implies is_ascii_char(#[trigger] t[i]) by {
        assert(ascii_slug_char(t[i], policy));
    }
    let l = unicode_lowercase(t);
    assert(l.len() == t.len());
    assert forall|i: int| 0 <= i < l.len() implies ascii_slug_char(#[trigger] l[i], policy) && (l[i]
        == '-' <==> t[i] == '-') && !('A' <= l[i] && l[i] <= 'Z') by {
        assert(ascii_lowered(t[i], l[i]));
        assert(ascii_slug_char(t[i], policy));
    }
    assert forall|k: int| 0 <= k && k + 1 < l.len() implies !(#[trigger] l[k] == '-' && l[k + 1]
        == '-') by {
        assert(l[k] == '-' <==> t[k] == '-');
        assert(l[k + 1] == '-' <==> t[k + 1] == '-');
    }
    if l.len() > 0 {
        assert(l[0] == '-' <==> t[0] == '-');
        assert(l[l.len() - 1] == '-' <==> t[t.len() - 1] == '-');
    }
    if ascii_slug(t, policy, true) {
        assert forall|i: int| 0 <= i < t.len() implies l[i] == t[i] by {
            assert(ascii_lowered(t[i], l[i]));
        }
        assert(l =~= t);
    }
}

/// With the ASCII character set and the delimiter `-`, a slug that is not
/// the fallback is made of ASCII letters, digits, `-` and kept dots, neither
/// starts nor ends with `-`, never holds `--`, and holds no capital letter
/// where lowercasing is on. Where lowercasing is on, this rests on
/// lowercasing mapping ASCII text character by character
/// (`lowercase_maps_ascii`), which is assumed here and not stated of
/// `str::to_lowercase` by this library.
pub proof fn law_ascii_slug_shape(input: Seq<char>, config: SlugConfig)
    requires
        config.allowed_character_set == AllowedCharacterSet::AsciiAlphanumericCharacters,
        config.replacement_delimiter == '-',
        config.lowercase_enabled ==> lowercase_maps_ascii(),
    ensures
        slug_outcome(input, config) matches Ok(s) ==> is_fallback(s, config) || ascii_slug(
            s,
            config.dot_handling_policy,
            config.lowercase_enabled,
        ),
{
    if let Ok(t) = transliteration_outcome(input, config.transliteration_policy) {
        let set = AllowedCharacterSet::AsciiAlphanumericCharacters;
        let policy = config.dot_handling_policy;
        let lower = config.lowercase_enabled;
        let kept = filtered(t, set, policy, '-');
        law_filter_emits_only_kept_characters(t, set, policy, '-');
        law_filter_collapses_runs(t, set, policy, '-');
        let trimmed = trim_delimiter(kept, '-');
        lemma_trim_shape(kept, '-');
        let a = choose|a: int|
            0 <= a <= kept.len() && a + trimmed.len() <= kept.len() && trimmed =~= #[trigger] kept.subrange(
                a,
                a + trimmed.len(),
            );
        assert forall|i: int| 0 <= i < trimmed.len() implies ascii_slug_char(
            #[trigger] trimmed[i],
            policy,
        ) by {
            assert(trimmed[i] == kept[a + i]);
            assert(emittable(kept[a + i], set, policy, '-'));
        }
        assert forall|k: int| 0 <= k && k + 1 < trimmed.len() implies !(#[trigger] trimmed[k] == '-'
            && trimmed[k + 1] == '-') by {
            assert(trimmed[k] == kept[a + k] && trimmed[k + 1] == kept[a + k + 1]);
        }
        assert(ascii_slug(trimmed, policy, false));
        let cased = cased_text(t, config);
        if lower {
            lemma_ascii_slug_lowered(trimmed, policy);
        }
        assert(ascii_slug(cased, policy, lower));
        if let Some(max) = config.max_slug_chars {
            lemma_truncated_shape(cased, max as nat, '-');
            lemma_ascii_slug_prefix(cased, policy, lower, cut_text(cased, config).len() as int);
        }
        assert(ascii_slug(cut_text(cased, config), policy, lower));
    }
}

/// Slugifying an ASCII slug again changes nothing. With the ASCII character
/// set, the delimiter `-`, dots all replaced or all kept, no transliteration
/// and empty slugs kept, every slug that `slugify` returns comes back
/// unchanged when slugified itself. Where lowercasing is on, this rests on
/// lowercasing mapping ASCII text character by character
/// (`lowercase_maps_ascii`), which is assumed here and not stated of
/// `str::to_lowercase` by this library.
pub proof fn law_ascii_slug_is_stable(input: Seq<char>, config: SlugConfig)
    requires
        config.allowed_character_set == AllowedCharacterSet::AsciiAlphanumericCharacters,
        config.replacement_delimiter == '-',
        config.dot_handling_policy != DotHandlingPolicy::PreserveDotsBetweenDecimalDigits,
        config.transliteration_policy is NoTransliteration,
        config.empty_output_policy is KeepEmptySlug,
        config.lowercase_enabled ==> lowercase_maps_ascii(),
    ensures
        slug_outcome(input, config) matches Ok(s) ==> slug_outcome(s, config) == Ok::<
            Seq<char>,
            SlugError,
        >(s),
{
    if let Ok(s) = slug_outcome(input, config) {
        let policy = config.dot_handling_policy;
        let lower = config.lowercase_enabled;
        law_ascii_slug_shape(input, config);
        if let Some(max) = config.max_slug_chars {
            law_slug_respects_max_chars(input, config, max);
        }
        law_filter_keeps_ascii_slug_text(s, policy);
        assert(strip_leading(s, '-') == s);
        assert(strip_trailing(s, '-') == s);
        assert(trim_delimiter(s, '-') == s);
        if lower {
            lemma_ascii_slug_lowered(s, policy);
        }
        assert(cased_text(s, config) == s);
        if let Some(max) = config.max_slug_chars {
            assert(truncated(s, max as nat, '-') == s);
        }
        assert(cut_text(s, config) == s);
    }
}

/// Lowercasing is the last step before the cut, whatever the delimiter: with
/// lowercasing on, the cased text is the lowercase of the cased text with
/// lowercasing off, and with lowercasing off it is the trimmed filter output
/// itself.
pub proof fn law_lowercasing_follows_trimming(t: Seq<char>, config: SlugConfig)
    ensures
        config.lowercase_enabled ==> cased_text(t, config) == unicode_lowercase(
            cased_text(t, SlugConfig { lowercase_enabled: false, ..config }),
        ),
        !config.lowercase_enabled ==> cased_text(t, config) == trim_delimiter(
            filtered(
                t,
                config.allowed_character_set,
                config.dot_handling_policy,
                config.replacement_delimiter,
            ),
            config.replacement_delimiter,
        ),
{
}

} // verus!
