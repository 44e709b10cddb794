use vstd::prelude::*;

use crate::chars::str_chars;
use crate::config::{SlugError, SlugValidationPolicy};
use crate::unicode::{char_is_control, char_is_whitespace, unicode_control, unicode_whitespace};

verus! {

/// The error that the character `c` raises in a local path segment, if any:
/// separators first, then whitespace, then control characters.
pub open spec fn local_char_error(c: char) -> Option<SlugError> {
    if c == '/' || c == '\\' {
        Some(SlugError::PathSegmentSeparator { character: c })
    } else if unicode_whitespace(c) {
        Some(SlugError::PathSegmentWhitespace { character: c })
    } else if unicode_control(c) {
        Some(SlugError::PathSegmentControlCharacter { character: c })
    } else {
        None
    }
}

/// The error that a character raises in a URL path segment beyond the local
/// path segment rules, if any.
pub open spec fn url_char_error(c: char) -> Option<SlugError> {
    if c == '?' || c == '#' || c == '%' {
        Some(SlugError::UrlPathSegmentReservedCharacter { character: c })
    } else {
        None
    }
}

/// The leftmost error that `check` reports among positions `0..n`.
pub open spec fn first_error(check: spec_fn(int) -> Option<SlugError>, n: nat) -> Option<SlugError>
    decreases n,
{
    if n == 0 {
        None
    } else if first_error(check, (n - 1) as nat) is Some {
        first_error(check, (n - 1) as nat)
    } else {
        check(n - 1)
    }
}

/// The local path segment check of each position of `s`.
pub open spec fn local_check(s: Seq<char>) -> spec_fn(int) -> Option<SlugError> {
    |i: int| local_char_error(s[i])
}

/// The URL path segment check of each position of `s`.
pub open spec fn url_check(s: Seq<char>) -> spec_fn(int) -> Option<SlugError> {
    |i: int| url_char_error(s[i])
}

/// `.` or `..`.
pub open spec fn is_dot_value(s: Seq<char>) -> bool {
    s == seq!['.'] || s == seq!['.', '.']
}

/// Why `s` is not one local filesystem path segment, if it is not.
pub open spec fn local_segment_error(s: Seq<char>) -> Option<SlugError> {
    if s.len() == 0 {
        Some(SlugError::EmptyPathSegment)
    } else if is_dot_value(s) {
        Some(SlugError::PathSegmentDotValue)
    } else {
        first_error(local_check(s), s.len())
    }
}

/// Why `s` is not one URL path segment, if it is not: the local path segment
/// rules come first.
pub open spec fn url_segment_error(s: Seq<char>) -> Option<SlugError> {
    match local_segment_error(s) {
        Some(e) => Some(e),
        None => first_error(url_check(s), s.len()),
    }
}

/// Why `s` fails `policy`, if it does.
pub open spec fn validation_error(s: Seq<char>, policy: SlugValidationPolicy) -> Option<SlugError> {
    match policy {
        SlugValidationPolicy::NoValidation => None,
        SlugValidationPolicy::LocalPathSegment => local_segment_error(s),
        SlugValidationPolicy::UrlPathSegment => url_segment_error(s),
    }
}

/// `Err` of the error, or `Ok` where there is none.
pub open spec fn as_outcome(e: Option<SlugError>) -> Result<(), SlugError> {
    match e {
        Some(e) => Err(e),
        None => Ok(()),
    }
}

/// The result that validation of `s` under `policy` gives.
pub open spec fn validation_outcome(s: Seq<char>, policy: SlugValidationPolicy) -> Result<
    (),
    SlugError,
> {
    as_outcome(validation_error(s, policy))
}

/// Validate `value` according to a standalone validation policy.
pub fn validate_slug(value: &str, policy: SlugValidationPolicy) -> (r: Result<(), SlugError>)
    ensures
        r == validation_outcome(value@, policy),
{
    match policy {
        SlugValidationPolicy::NoValidation => Ok(()),
        SlugValidationPolicy::LocalPathSegment => validate_local_path_segment(value),
        SlugValidationPolicy::UrlPathSegment => validate_url_path_segment(value),
    }
}

fn local_char_check(c: char) -> (r: Option<SlugError>)
    ensures
        r == local_char_error(c),
{
    if c == '/' || c == '\\' {
        Some(SlugError::PathSegmentSeparator { character: c })
    } else if char_is_whitespace(c) {
        Some(SlugError::PathSegmentWhitespace { character: c })
    } else if char_is_control(c) {
        Some(SlugError::PathSegmentControlCharacter { character: c })
    } else {
        None
    }
}

fn url_char_check(c: char) -> (r: Option<SlugError>)
    ensures
        r == url_char_error(c),
{
    if c == '?' || c == '#' || c == '%' {
        Some(SlugError::UrlPathSegmentReservedCharacter { character: c })
    } else {
        None
    }
}

proof fn lemma_first_error_settles(check: spec_fn(int) -> Option<SlugError>, k: nat, n: nat)
    requires
        k <= n,
        first_error(check, k) is Some,
    ensures
        first_error(check, n) == first_error(check, k),
    decreases n,
{
    if n > k {
        lemma_first_error_settles(check, k, (n - 1) as nat);
    }
}

fn validate_local_path_segment(value: &str) -> (r: Result<(), SlugError>)
    ensures
        r == as_outcome(local_segment_error(value@)),
{
    let chars = str_chars(value);
    let n = chars.len();
    if n == 0 {
        return Err(SlugError::EmptyPathSegment);
    }
    if (n == 1 && chars[0] == '.') || (n == 2 && chars[0] == '.' && chars[1] == '.') {
        assert(is_dot_value(chars@)) by {
            if n == 1 {
                assert(chars@ =~= seq!['.']);
            } else {
                assert(chars@ =~= seq!['.', '.']);
            }
        }
        return Err(SlugError::PathSegmentDotValue);
    }
    assert(!is_dot_value(chars@)) by {
        if chars@ == seq!['.'] {
            assert(chars@[0] == '.');
        }
        if chars@ == seq!['.', '.'] {
            assert(chars@[0] == '.' && chars@[1] == '.');
        }
    }
    let ghost check = local_check(chars@);
    for i in 0..n
        invariant
            n == chars@.len(),
            chars@ == value@,
            n > 0,
            !is_dot_value(chars@),
            check == local_check(chars@),
            first_error(check, i as nat) is None,
    {
        match local_char_check(chars[i]) {
            Some(e) => {
                proof {
                    assert(first_error(check, (i + 1) as nat) == Some(e));
                    lemma_first_error_settles(check, (i + 1) as nat, n as nat);
                }
                return Err(e);
            },
            None => {},
        }
    }
    Ok(())
}

fn validate_url_path_segment(value: &str) -> (r: Result<(), SlugError>)
    ensures
        r == as_outcome(url_segment_error(value@)),
{
    let local = validate_local_path_segment(value);
    if let Err(e) = local {
        return Err(e);
    }
    let chars = str_chars(value);
    let ghost check = url_check(chars@);
    let n = chars.len();
    for i in 0..n
        invariant
            n == chars@.len(),
            chars@ == value@,
            local_segment_error(value@) is None,
            check == url_check(chars@),
            first_error(check, i as nat) is None,
    {
        match url_char_check(chars[i]) {
            Some(e) => {
                proof {
                    assert(first_error(check, (i + 1) as nat) == Some(e));
                    lemma_first_error_settles(check, (i + 1) as nat, n as nat);
                }
                return Err(e);
            },
            None => {},
        }
    }
    Ok(())
}

/// `first_error` is the error of the leftmost position that `check` rejects,
/// and none exactly when `check` accepts every position.
pub proof fn lemma_first_error(check: spec_fn(int) -> Option<SlugError>, n: nat)
    ensures
        first_error(check, n) is None <==> forall|i: int| 0 <= i < n ==> (#[trigger] check(i)) is None,
        first_error(check, n) matches Some(e) ==> exists|i: int|
            0 <= i < n && #[trigger] check(i) == Some(e) && forall|j: int|
                0 <= j < i ==> (#[trigger] check(j)) is None,
    decreases n,
{
    if n > 0 {
        lemma_first_error(check, (n - 1) as nat);
        if first_error(check, (n - 1) as nat) is None {
            if let Some(e) = check(n - 1) {
                assert(check(n - 1) == Some(e));
            }
        }
    }
}

/// One local filesystem path segment is exactly a non-empty value other than
/// `.` and `..` without `/`, `\`, whitespace or control characters.
pub proof fn law_local_segment_rules(s: Seq<char>)
    ensures
        validation_outcome(s, SlugValidationPolicy::LocalPathSegment) is Ok <==> local_segment_error(
            s,
        ) is None,
        local_segment_error(s) is None <==> {
            &&& s.len() > 0
            &&& !is_dot_value(s)
            &&& forall|i: int|
                0 <= i < s.len() ==> {
                    &&& s[i] != '/'
                    &&& s[i] != '\\'
                    &&& !unicode_whitespace(#[trigger] s[i])
                    &&& !unicode_control(s[i])
                }
        },
{
    let check = local_check(s);
    lemma_first_error(check, s.len());
    if s.len() > 0 && !is_dot_value(s) {
        if local_segment_error(s) is None {
            assert forall|i: int| 0 <= i < s.len() implies {
                &&& s[i] != '/'
                &&& s[i] != '\\'
                &&& !unicode_whitespace(#[trigger] s[i])
                &&& !unicode_control(s[i])
            } by {
                assert(check(i) is None);
            }
        } else {
            let e = first_error(check, s.len())->0;
            let i = choose|i: int|
                0 <= i < s.len() && #[trigger] check(i) == Some(e) && forall|j: int|
                    0 <= j < i ==> (#[trigger] check(j)) is None;
            assert(check(i) is Some);
        }
    }
}

/// One URL path segment is exactly one local path segment without `?`, `#`
/// or a raw `%`; so every URL path segment is a local path segment too.
pub proof fn law_url_segment_rules(s: Seq<char>)
    ensures
        url_segment_error(s) is None <==> {
            &&& local_segment_error(s) is None
            &&& forall|i: int|
                0 <= i < s.len() ==> #[trigger] s[i] != '?' && s[i] != '#' && s[i] != '%'
        },
{
    let check = url_check(s);
    lemma_first_error(check, s.len());
    if local_segment_error(s) is None {
        if first_error(check, s.len()) is None {
            assert forall|i: int| 0 <= i < s.len() implies #[trigger] s[i] != '?' && s[i] != '#'
                && s[i] != '%' by {
                assert(check(i) is None);
            }
        } else {
            let e = first_error(check, s.len())->0;
            let i = choose|i: int|
                0 <= i < s.len() && #[trigger] check(i) == Some(e) && forall|j: int|
                    0 <= j < i ==> (#[trigger] check(j)) is None;
            assert(check(i) is Some);
        }
    }
}

/// The error a value gets as a local path segment: empty values and `.`/`..`
/// first, then the leftmost `/`, `\`, whitespace or control character, reported
/// as a separator, whitespace or control error in that order of precedence.
pub proof fn law_local_segment_verdict(s: Seq<char>)
    ensures
        s.len() == 0 ==> validation_outcome(s, SlugValidationPolicy::LocalPathSegment) == Err::<
            (),
            SlugError,
        >(SlugError::EmptyPathSegment),
        is_dot_value(s) ==> validation_outcome(s, SlugValidationPolicy::LocalPathSegment) == Err::<
            (),
            SlugError,
        >(SlugError::PathSegmentDotValue),
        s.len() > 0 && !is_dot_value(s) ==> {
            &&& validation_outcome(s, SlugValidationPolicy::LocalPathSegment) is Ok <==> forall|
                i: int,
            |
                0 <= i < s.len() ==> local_char_error(#[trigger] s[i]) is None
            &&& validation_outcome(s, SlugValidationPolicy::LocalPathSegment) matches Err(e)
                ==> exists|i: int|
                0 <= i < s.len() && local_char_error(#[trigger] s[i]) == Some(e) && forall|j: int|
                    0 <= j < i ==> local_char_error(#[trigger] s[j]) is None
        },
{
    let lc = local_check(s);
    lemma_first_error(lc, s.len());
    if s.len() > 0 && !is_dot_value(s) {
        if let Err(e) = validation_outcome(s, SlugValidationPolicy::LocalPathSegment) {
            let i = choose|i: int|
                0 <= i < s.len() && #[trigger] lc(i) == Some(e) && forall|j: int|
                    0 <= j < i ==> (#[trigger] lc(j)) is None;
            assert(lc(i) == Some(e));
            assert forall|j: int| 0 <= j < i implies local_char_error(#[trigger] s[j]) is None by {
                assert(lc(j) is None);
            }
        } else {
            assert forall|i: int| 0 <= i < s.len() implies local_char_error(#[trigger] s[i]) is None by {
                assert(lc(i) is None);
            }
        }
        if forall|i: int|
            0 <= i < s.len() ==> local_char_error(#[trigger] s[i]) is None {
            assert forall|i: int| 0 <= i < s.len() implies (#[trigger] lc(i)) is None by {
                assert(local_char_error(s[i])
                    is None);
            }
        }
    }
}

/// The error a value gets as a URL path segment: the local path segment
/// error if there is one, else the leftmost `?`, `#` or `%`.
pub proof fn law_url_segment_verdict(s: Seq<char>)
    ensures
        validation_outcome(s, SlugValidationPolicy::LocalPathSegment) matches Err(e)
            ==> validation_outcome(s, SlugValidationPolicy::UrlPathSegment) == Err::<(), SlugError>(
            e,
        ),
        validation_outcome(s, SlugValidationPolicy::LocalPathSegment) is Ok ==> {
            &&& validation_outcome(s, SlugValidationPolicy::UrlPathSegment) is Ok <==> forall|i: int|
                0 <= i < s.len() ==> url_char_error(#[trigger] s[i]) is None
            &&& validation_outcome(s, SlugValidationPolicy::UrlPathSegment) matches Err(e)
                ==> exists|i: int|
                0 <= i < s.len() && url_char_error(#[trigger] s[i]) == Some(e) && e
                    == SlugError::UrlPathSegmentReservedCharacter { character: s[i] } && forall|
                    j: int,
                | 0 <= j < i ==> url_char_error(#[trigger] s[j]) is None
        },
{
    let uc = url_check(s);
    lemma_first_error(uc, s.len());
    if validation_outcome(s, SlugValidationPolicy::LocalPathSegment) is Ok {
        if let Err(e) = validation_outcome(s, SlugValidationPolicy::UrlPathSegment) {
            let i = choose|i: int|
                0 <= i < s.len() && #[trigger] uc(i) == Some(e) && forall|j: int|
                    0 <= j < i ==> (#[trigger] uc(j)) is None;
            assert(url_char_error(s[i]) == Some(e));
            assert forall|j: int| 0 <= j < i implies url_char_error(#[trigger] s[j]) is None by {
                assert(uc(j) is None);
            }
        } else {
            assert forall|i: int| 0 <= i < s.len() implies url_char_error(#[trigger] s[i])
                is None by {
                assert(uc(i) is None);
            }
        }
        if forall|i: int| 0 <= i < s.len() ==> url_char_error(#[trigger] s[i]) is None {
            assert forall|i: int| 0 <= i < s.len() implies (#[trigger] uc(i)) is None by {
                assert(url_char_error(s[i]) is None);
            }
        }
    }
}

/// Only the two values `.` and `..` are refused as dot values: validation
/// gives `PathSegmentDotValue` exactly for them (under either path-segment
/// policy), and any other non-empty value without `/`, `\`, whitespace or
/// control characters (such as `.env`) is a local path segment.
pub proof fn law_only_dot_values_are_refused_as_dots(s: Seq<char>, policy: SlugValidationPolicy)
    ensures
        validation_outcome(s, policy) == Err::<(), SlugError>(SlugError::PathSegmentDotValue) <==> (
        policy != SlugValidationPolicy::NoValidation && (s =~= seq!['.'] || s =~= seq!['.', '.'])),
        s.len() > 0 && !(s =~= seq!['.']) && !(s =~= seq!['.', '.']) && (forall|i: int|
            0 <= i < s.len() ==> #[trigger] s[i] != '/' && s[i] != '\\' && !unicode_whitespace(s[i])
                && !unicode_control(s[i])) ==> validation_outcome(
            s,
            SlugValidationPolicy::LocalPathSegment,
        ) == Ok::<(), SlugError>(()),
{
    let lc = local_check(s);
    let uc = url_check(s);
    lemma_first_error(lc, s.len());
    lemma_first_error(uc, s.len());
    if s.len() > 0 && !is_dot_value(s) {
        if let Some(e) = first_error(lc, s.len()) {
            let i = choose|i: int|
                0 <= i < s.len() && #[trigger] lc(i) == Some(e) && forall|j: int|
                    0 <= j < i ==> (#[trigger] lc(j)) is None;
            assert(local_char_error(s[i]) == Some(e));
            assert(e != SlugError::PathSegmentDotValue);
        }
        if let Some(e) = first_error(uc, s.len()) {
            let i = choose|i: int|
                0 <= i < s.len() && #[trigger] uc(i) == Some(e) && forall|j: int|
                    0 <= j < i ==> (#[trigger] uc(j)) is None;
            assert(url_char_error(s[i]) == Some(e));
            assert(e != SlugError::PathSegmentDotValue);
        }
        if forall|i: int|
            0 <= i < s.len() ==> #[trigger] s[i] != '/' && s[i] != '\\' && !unicode_whitespace(s[i])
                && !unicode_control(s[i]) {
            assert forall|i: int| 0 <= i < s.len() implies (#[trigger] lc(i)) is None by {
                assert(s[i] != '/' && s[i] != '\\' && !unicode_whitespace(s[i]) && !unicode_control(s[i]));
            }
        }
    }
    if s =~= seq!['.'] || s =~= seq!['.', '.'] {
        assert(is_dot_value(s));
    }
    if is_dot_value(s) {
        assert(s =~= seq!['.'] || s =~= seq!['.', '.']);
    }
}

} // verus!
