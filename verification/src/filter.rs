use vstd::prelude::*;

use crate::config::{AllowedCharacterSet, DotHandlingPolicy};
use crate::unicode::{
    ascii_alnum, char_is_alphanumeric, is_ascii_alnum, is_unicode_decimal_digit,
    is_unicode_alphanumeric, is_unicode_letter, unicode_decimal_digit, unicode_letter,
    unicode_whitespace,
};

verus! {

/// Whether `c` passes the slug filter under `set`.
pub open spec fn char_allowed(c: char, set: AllowedCharacterSet) -> bool {
    match set {
        AllowedCharacterSet::UnicodeAlphanumericCharacters => is_unicode_alphanumeric(c),
        AllowedCharacterSet::AsciiAlphanumericCharacters => is_ascii_alnum(c),
        AllowedCharacterSet::UnicodeLettersAndDecimalDigits => is_unicode_letter(c)
            || is_unicode_decimal_digit(c),
    }
}

/// `out` with one delimiter `d` appended, unless `out` is empty or already
/// ends with `d`.
pub open spec fn with_delimiter(out: Seq<char>, d: char) -> Seq<char> {
    if out.len() == 0 || out.last() == d {
        out
    } else {
        out.push(d)
    }
}

/// For each character of `s`, whether it passes the filter under `set`.
pub open spec fn allowed_marks(s: Seq<char>, set: AllowedCharacterSet) -> Seq<bool> {
    Seq::new(s.len(), |i: int| char_allowed(s[i], set))
}

/// For each character of `s`, whether it is a Unicode decimal digit.
pub open spec fn digit_marks(s: Seq<char>) -> Seq<bool> {
    Seq::new(s.len(), |i: int| is_unicode_decimal_digit(s[i]))
}

/// Whether a dot at position `i` is kept under `policy`, where `digit` marks
/// the decimal digits of the text.
pub open spec fn dot_kept(digit: Seq<bool>, i: int, policy: DotHandlingPolicy) -> bool {
    match policy {
        DotHandlingPolicy::ReplaceAllDots => false,
        DotHandlingPolicy::PreserveAllDots => true,
        DotHandlingPolicy::PreserveDotsBetweenDecimalDigits => {
            &&& 0 < i
            &&& i + 1 < digit.len()
            &&& digit[i - 1]
            &&& digit[i + 1]
        },
    }
}

/// The filter's output `out` after it has also read `s[i]`, where `kept`
/// marks the characters that pass and `digit` the decimal digits.
pub open spec fn filter_step(
    out: Seq<char>,
    s: Seq<char>,
    kept: Seq<bool>,
    digit: Seq<bool>,
    i: int,
    policy: DotHandlingPolicy,
    d: char,
) -> Seq<char> {
    if kept[i] {
        out.push(s[i])
    } else if s[i] == '.' && dot_kept(digit, i, policy) {
        out.push('.')
    } else {
        with_delimiter(out, d)
    }
}

/// The filter's output after reading the first `n` characters of `s`.
pub open spec fn marked_prefix(
    s: Seq<char>,
    kept: Seq<bool>,
    digit: Seq<bool>,
    n: nat,
    policy: DotHandlingPolicy,
    d: char,
) -> Seq<char>
    decreases n,
{
    if n == 0 {
        seq![]
    } else {
        filter_step(marked_prefix(s, kept, digit, (n - 1) as nat, policy, d), s, kept, digit, n - 1, policy, d)
    }
}

/// Marked characters kept, dots kept where `policy` says so, and every run of
/// other characters turned into one delimiter `d` (none at the start).
pub open spec fn filtered_marked(
    s: Seq<char>,
    kept: Seq<bool>,
    digit: Seq<bool>,
    policy: DotHandlingPolicy,
    d: char,
) -> Seq<char> {
    marked_prefix(s, kept, digit, s.len(), policy, d)
}

/// The filter of steps 2 to 5: characters allowed by `set` kept, dots
/// handled by `policy`, other runs turned into one delimiter `d`.
pub open spec fn filtered(
    s: Seq<char>,
    set: AllowedCharacterSet,
    policy: DotHandlingPolicy,
    d: char,
) -> Seq<char> {
    filtered_marked(s, allowed_marks(s, set), digit_marks(s), policy, d)
}

/// Whether `ch` passes the filter. The ASCII set and the letters-and-digits
/// set never admit `.`, `-` or a whitespace character.
pub(crate) fn is_allowed(ch: char, allowed_character_set: AllowedCharacterSet) -> (r: bool)
    ensures
        r == char_allowed(ch, allowed_character_set),
        allowed_character_set != AllowedCharacterSet::UnicodeAlphanumericCharacters ==> (ch == '.'
            || ch == '-' || unicode_whitespace(ch) ==> !r),
{
    match allowed_character_set {
        AllowedCharacterSet::UnicodeAlphanumericCharacters => char_is_alphanumeric(ch),
        AllowedCharacterSet::AsciiAlphanumericCharacters => ascii_alnum(ch),
        AllowedCharacterSet::UnicodeLettersAndDecimalDigits => {
            unicode_letter(ch) || unicode_decimal_digit(ch)
        },
    }
}

/// Whether a dot is kept, given whether the characters before and after it
/// exist and are decimal digits.
pub(crate) fn should_preserve_dot(
    previous_is_digit: bool,
    next_is_digit: bool,
    policy: DotHandlingPolicy,
) -> (r: bool)
    ensures
        r == match policy {
            DotHandlingPolicy::ReplaceAllDots => false,
            DotHandlingPolicy::PreserveAllDots => true,
            DotHandlingPolicy::PreserveDotsBetweenDecimalDigits => previous_is_digit
                && next_is_digit,
        },
{
    match policy {
        DotHandlingPolicy::ReplaceAllDots => false,
        DotHandlingPolicy::PreserveAllDots => true,
        DotHandlingPolicy::PreserveDotsBetweenDecimalDigits => previous_is_digit && next_is_digit,
    }
}

pub(crate) fn push_replacement_delimiter(output: &mut Vec<char>, replacement_delimiter: char)
    ensures
        final(output)@ == with_delimiter(old(output)@, replacement_delimiter),
{
    if output.len() == 0 || output[output.len() - 1] == replacement_delimiter {
        return;
    }
    output.push(replacement_delimiter);
}

/// The filter on `input`, given for each character whether it passes
/// (`kept`) and whether it is a decimal digit (`digits`).
pub fn filter_marked(
    input: &Vec<char>,
    kept: &Vec<bool>,
    digits: &Vec<bool>,
    dot_handling_policy: DotHandlingPolicy,
    replacement_delimiter: char,
) -> (r: Vec<char>)
    requires
        kept@.len() == input@.len(),
        digits@.len() == input@.len(),
    ensures
        r@ == filtered_marked(input@, kept@, digits@, dot_handling_policy, replacement_delimiter),
{
    let mut output: Vec<char> = Vec::new();
    let n = input.len();
    for i in 0..n
        invariant
            n == input@.len(),
            kept@.len() == n,
            digits@.len() == n,
            output@ == marked_prefix(
                input@,
                kept@,
                digits@,
                i as nat,
                dot_handling_policy,
                replacement_delimiter,
            ),
    {
        let ch = input[i];
        if kept[i] {
            output.push(ch);
        } else if ch == '.' && should_preserve_dot(
            i > 0 && digits[i - 1],
            i + 1 < n && digits[i + 1],
            dot_handling_policy,
        ) {
            output.push('.');
        } else {
            push_replacement_delimiter(&mut output, replacement_delimiter);
        }
    }
    output
}

/// Steps 2 to 5 of slug generation on `input`.
pub(crate) fn filter_chars(
    input: &Vec<char>,
    allowed_character_set: AllowedCharacterSet,
    dot_handling_policy: DotHandlingPolicy,
    replacement_delimiter: char,
) -> (r: Vec<char>)
    ensures
        r@ == filtered(input@, allowed_character_set, dot_handling_policy, replacement_delimiter),
{
    let mut kept: Vec<bool> = Vec::new();
    let mut digits: Vec<bool> = Vec::new();
    let n = input.len();
    for i in 0..n
        invariant
            n == input@.len(),
            kept@ =~= allowed_marks(input@, allowed_character_set).take(i as int),
            digits@ =~= digit_marks(input@).take(i as int),
    {
        kept.push(is_allowed(input[i], allowed_character_set));
        digits.push(unicode_decimal_digit(input[i]));
    }
    assert(kept@ =~= allowed_marks(input@, allowed_character_set));
    assert(digits@ =~= digit_marks(input@));
    filter_marked(input, &kept, &digits, dot_handling_policy, replacement_delimiter)
}

/// A character the filter may emit: an allowed character, a kept dot (only
/// when dots are not all replaced), or the delimiter.
pub open spec fn emittable(c: char, set: AllowedCharacterSet, policy: DotHandlingPolicy, d: char) -> bool {
    ||| char_allowed(c, set)
    ||| (c == '.' && policy != DotHandlingPolicy::ReplaceAllDots)
    ||| c == d
}

proof fn lemma_prefix_emittable(
    s: Seq<char>,
    n: nat,
    set: AllowedCharacterSet,
    policy: DotHandlingPolicy,
    d: char,
)
    requires
        n <= s.len(),
    ensures
        forall|k: int|
            0 <= k < marked_prefix(s, allowed_marks(s, set), digit_marks(s), n, policy, d).len()
                ==> emittable(
                #[trigger] marked_prefix(s, allowed_marks(s, set), digit_marks(s), n, policy, d)[k],
                set,
                policy,
                d,
            ),
    decreases n,
{
    if n > 0 {
        lemma_prefix_emittable(s, (n - 1) as nat, set, policy, d);
        let prev = marked_prefix(s, allowed_marks(s, set), digit_marks(s), (n - 1) as nat, policy, d);
        let cur = marked_prefix(s, allowed_marks(s, set), digit_marks(s), n, policy, d);
        assert forall|k: int| 0 <= k < cur.len() implies emittable(#[trigger] cur[k], set, policy, d) by {
            if k < prev.len() {
                assert(cur[k] == prev[k]);
            }
        }
    }
}

proof fn lemma_prefix_single_delimiters(
    s: Seq<char>,
    kept: Seq<bool>,
    digit: Seq<bool>,
    n: nat,
    policy: DotHandlingPolicy,
    d: char,
)
    requires
        n <= s.len(),
        kept.len() == s.len(),
        forall|j: int| 0 <= j < s.len() && #[trigger] kept[j] ==> s[j] != d,
        d != '.' || policy == DotHandlingPolicy::ReplaceAllDots,
    ensures
        marked_prefix(s, kept, digit, n, policy, d).len() > 0 ==> marked_prefix(s, kept, digit, n, policy, d)[0]
            != d,
        forall|k: int|
            0 <= k && k + 1 < marked_prefix(s, kept, digit, n, policy, d).len() ==> !(
            #[trigger] marked_prefix(s, kept, digit, n, policy, d)[k] == d && marked_prefix(
                s,
                kept,
                digit,
                n,
                policy,
                d,
            )[k + 1] == d),
    decreases n,
{
    if n > 0 {
        lemma_prefix_single_delimiters(s, kept, digit, (n - 1) as nat, policy, d);
        let prev = marked_prefix(s, kept, digit, (n - 1) as nat, policy, d);
        let cur = marked_prefix(s, kept, digit, n, policy, d);
        assert forall|k: int| 0 <= k && k + 1 < cur.len() implies !(#[trigger] cur[k] == d && cur[k
            + 1] == d) by {
            if k + 1 < prev.len() {
                assert(cur[k] == prev[k] && cur[k + 1] == prev[k + 1]);
            }
        }
    }
}

/// The filter emits only allowed characters, dots (unless every dot is
/// replaced), and the delimiter.
pub proof fn law_filter_emits_only_kept_characters(
    s: Seq<char>,
    set: AllowedCharacterSet,
    policy: DotHandlingPolicy,
    d: char,
)
    ensures
        forall|k: int|
            0 <= k < filtered(s, set, policy, d).len() ==> emittable(
                #[trigger] filtered(s, set, policy, d)[k],
                set,
                policy,
                d,
            ),
{
    lemma_prefix_emittable(s, s.len(), set, policy, d);
}

/// Each run of filtered-out characters becomes one delimiter: when the
/// delimiter is not itself a kept character, the filter output never starts
/// with it and never holds it twice in a row.
pub proof fn law_filter_collapses_runs(
    s: Seq<char>,
    set: AllowedCharacterSet,
    policy: DotHandlingPolicy,
    d: char,
)
    requires
        !char_allowed(d, set),
        d != '.' || policy == DotHandlingPolicy::ReplaceAllDots,
    ensures
        filtered(s, set, policy, d).len() > 0 ==> filtered(s, set, policy, d)[0] != d,
        forall|k: int|
            0 <= k && k + 1 < filtered(s, set, policy, d).len() ==> !(
            #[trigger] filtered(s, set, policy, d)[k] == d && filtered(s, set, policy, d)[k + 1]
                == d),
{
    let kept = allowed_marks(s, set);
    assert forall|j: int| 0 <= j < s.len() && #[trigger] kept[j] implies s[j] != d by {
        assert(char_allowed(s[j], set));
    }
    lemma_prefix_single_delimiters(s, kept, digit_marks(s), s.len(), policy, d);
}

/// With every dot replaced, no dot survives the filter unless the character
/// set keeps dots or the delimiter is a dot.
pub proof fn law_replaced_dots_vanish(s: Seq<char>, set: AllowedCharacterSet, d: char)
    requires
        !char_allowed('.', set),
        d != '.',
    ensures
        !filtered(s, set, DotHandlingPolicy::ReplaceAllDots, d).contains('.'),
{
    law_filter_emits_only_kept_characters(s, set, DotHandlingPolicy::ReplaceAllDots, d);
    let out = filtered(s, set, DotHandlingPolicy::ReplaceAllDots, d);
    if out.contains('.') {
        let k = choose|k: int| 0 <= k < out.len() && out[k] == '.';
        assert(emittable(out[k], set, DotHandlingPolicy::ReplaceAllDots, d));
    }
}

/// The maximal runs of consecutive kept characters among the first `n`
/// characters of `s`, in order.
pub open spec fn kept_runs(s: Seq<char>, kept: Seq<bool>, n: nat) -> Seq<Seq<char>>
    decreases n,
{
    if n == 0 {
        seq![]
    } else {
        let runs = kept_runs(s, kept, (n - 1) as nat);
        if !kept[n - 1] {
            runs
        } else if n >= 2 && kept[n - 2] {
            runs.update(runs.len() - 1, runs.last().push(s[n - 1]))
        } else {
            runs.push(seq![s[n - 1]])
        }
    }
}

/// The runs joined by single delimiters `d`.
pub open spec fn joined(runs: Seq<Seq<char>>, d: char) -> Seq<char>
    decreases runs.len(),
{
    if runs.len() == 0 {
        seq![]
    } else if runs.len() == 1 {
        runs[0]
    } else {
        joined(runs.drop_last(), d).push(d) + runs.last()
    }
}

proof fn lemma_joined_extend_last(runs: Seq<Seq<char>>, c: char, d: char)
    requires
        runs.len() > 0,
    ensures
        joined(runs.update(runs.len() - 1, runs.last().push(c)), d) == joined(runs, d).push(c),
{
    let r2 = runs.update(runs.len() - 1, runs.last().push(c));
    if runs.len() == 1 {
        assert(r2[0] == runs[0].push(c));
    } else {
        assert(r2.drop_last() =~= runs.drop_last());
        assert(joined(runs.drop_last(), d).push(d) + runs.last().push(c) =~= (joined(
            runs.drop_last(),
            d,
        ).push(d) + runs.last()).push(c));
    }
}

proof fn lemma_joined_last(runs: Seq<Seq<char>>, d: char)
    requires
        runs.len() > 0,
        runs.last().len() > 0,
    ensures
        joined(runs, d).len() > 0,
        joined(runs, d).last() == runs.last().last(),
{
}

proof fn lemma_runs_prefix(s: Seq<char>, kept: Seq<bool>, digit: Seq<bool>, n: nat, d: char)
    requires
        n <= s.len(),
        kept.len() == s.len(),
        forall|j: int| 0 <= j < s.len() && #[trigger] kept[j] ==> s[j] != d,
    ensures
        forall|k: int| 0 <= k < kept_runs(s, kept, n).len() ==> (#[trigger] kept_runs(s, kept, n)[k]).len() > 0,
        kept_runs(s, kept, n).len() > 0 ==> kept_runs(s, kept, n).last().last() != d,
        marked_prefix(s, kept, digit, n, DotHandlingPolicy::ReplaceAllDots, d) == joined(
            kept_runs(s, kept, n),
            d,
        ) + if kept_runs(s, kept, n).len() > 0 && !kept[n - 1] {
            seq![d]
        } else {
            seq![]
        },
    decreases n,
{
    if n > 0 {
        lemma_runs_prefix(s, kept, digit, (n - 1) as nat, d);
        let runs = kept_runs(s, kept, (n - 1) as nat);
        let prev = marked_prefix(s, kept, digit, (n - 1) as nat, DotHandlingPolicy::ReplaceAllDots, d);
        let c = s[n - 1];
        if kept[n - 1] {
            if n >= 2 && kept[n - 2] {
                lemma_joined_extend_last(runs, c, d);
                assert(prev =~= joined(runs, d));
                let r2 = kept_runs(s, kept, n);
                assert forall|k: int| 0 <= k < r2.len() implies (#[trigger] r2[k]).len() > 0 by {
                    if k < runs.len() - 1 {
                        assert(r2[k] == runs[k]);
                    }
                }
            } else {
                if runs.len() == 0 {
                    assert(prev =~= seq![]);
                    assert(joined(seq![seq![c]], d) == seq![c]);
                    assert(seq![c] + Seq::<char>::empty() =~= seq![c]);
                    assert(seq![].push(c) =~= seq![c]);
                } else {
                    let r2 = runs.push(seq![c]);
                    assert(r2.drop_last() =~= runs);
                    assert(prev =~= joined(runs, d).push(d));
                    assert(joined(r2, d) =~= joined(runs, d).push(d) + seq![c]);
                }
                let r2 = kept_runs(s, kept, n);
                assert forall|k: int| 0 <= k < r2.len() implies (#[trigger] r2[k]).len() > 0 by {
                    if k < runs.len() {
                        assert(r2[k] == runs[k]);
                    }
                }
            }
        } else {
            if runs.len() > 0 {
                assert(runs.last().len() > 0);
                lemma_joined_last(runs, d);
                if n >= 2 && kept[n - 2] {
                    assert(prev =~= joined(runs, d));
                } else {
                    assert(prev =~= joined(runs, d).push(d));
                }
            } else {
                assert(prev =~= seq![]);
            }
        }
    }
}

/// With every dot replaced and a delimiter that the set never keeps, the
/// filter's output is the maximal runs of allowed characters, in order,
/// joined by single delimiters, with one more delimiter at the end when the
/// text ends in characters that are not kept.
pub proof fn law_filter_joins_runs(s: Seq<char>, set: AllowedCharacterSet, d: char)
    requires
        !char_allowed(d, set),
    ensures
        filtered(s, set, DotHandlingPolicy::ReplaceAllDots, d) == joined(
            kept_runs(s, allowed_marks(s, set), s.len()),
            d,
        ) + if kept_runs(s, allowed_marks(s, set), s.len()).len() > 0 && !char_allowed(
            s.last(),
            set,
        ) {
            seq![d]
        } else {
            seq![]
        },
{
    let kept = allowed_marks(s, set);
    assert forall|j: int| 0 <= j < s.len() && #[trigger] kept[j] implies s[j] != d by {
        assert(char_allowed(s[j], set));
    }
    lemma_runs_prefix(s, kept, digit_marks(s), s.len(), d);
}

/// A character of an ASCII slug: an ASCII letter or digit, `-`, or `.` where
/// dots are kept.
pub open spec fn ascii_slug_char(c: char, policy: DotHandlingPolicy) -> bool {
    is_ascii_alnum(c) || c == '-' || (c == '.' && policy != DotHandlingPolicy::ReplaceAllDots)
}

/// A text of ASCII slug characters that does not start with `-` and never
/// holds `-` twice in a row.
pub open spec fn ascii_slug_text(s: Seq<char>, policy: DotHandlingPolicy) -> bool {
    &&& forall|i: int| 0 <= i < s.len() ==> ascii_slug_char(#[trigger] s[i], policy)
    &&& s.len() == 0 || s[0] != '-'
    &&& forall|k: int| 0 <= k && k + 1 < s.len() ==> !(#[trigger] s[k] == '-' && s[k + 1] == '-')
}

proof fn lemma_prefix_keeps_ascii_slug_text(s: Seq<char>, policy: DotHandlingPolicy, n: nat)
    requires
        ascii_slug_text(s, policy),
        policy != DotHandlingPolicy::PreserveDotsBetweenDecimalDigits,
        n <= s.len(),
    ensures
        marked_prefix(
            s,
            allowed_marks(s, AllowedCharacterSet::AsciiAlphanumericCharacters),
            digit_marks(s),
            n,
            policy,
            '-',
        ) =~= s.take(n as int),
    decreases n,
{
    if n > 0 {
        let i = n - 1;
        lemma_prefix_keeps_ascii_slug_text(s, policy, i as nat);
        let kept = allowed_marks(s, AllowedCharacterSet::AsciiAlphanumericCharacters);
        assert(kept[i] == is_ascii_alnum(s[i]));
        assert(ascii_slug_char(s[i], policy));
        if !kept[i] && s[i] == '-' && i > 0 {
            assert(s.take(i).last() == s[i - 1]);
            assert(!(s[i - 1] == '-' && s[i] == '-'));
        }
        assert(s.take(i).push(s[i]) =~= s.take(n as int));
    }
}

/// The ASCII filter with the delimiter `-` gives an ASCII slug text back
/// unchanged, unless dots are kept only between digits.
pub proof fn law_filter_keeps_ascii_slug_text(s: Seq<char>, policy: DotHandlingPolicy)
    requires
        ascii_slug_text(s, policy),
        policy != DotHandlingPolicy::PreserveDotsBetweenDecimalDigits,
    ensures
        filtered(s, AllowedCharacterSet::AsciiAlphanumericCharacters, policy, '-') == s,
{
    lemma_prefix_keeps_ascii_slug_text(s, policy, s.len());
    assert(s.take(s.len() as int) =~= s);
}

proof fn lemma_prefix_same_dots(
    s: Seq<char>,
    kept: Seq<bool>,
    digit: Seq<bool>,
    n: nat,
    p1: DotHandlingPolicy,
    p2: DotHandlingPolicy,
    d: char,
)
    requires
        n <= s.len(),
        forall|i: int|
            0 <= i < n && #[trigger] s[i] == '.' && !kept[i] ==> dot_kept(digit, i, p1) == dot_kept(
                digit,
                i,
                p2,
            ),
    ensures
        marked_prefix(s, kept, digit, n, p1, d) == marked_prefix(s, kept, digit, n, p2, d),
    decreases n,
{
    if n > 0 {
        lemma_prefix_same_dots(s, kept, digit, (n - 1) as nat, p1, p2, d);
        if s[n - 1] == '.' && !kept[n - 1] {
            assert(dot_kept(digit, n - 1, p1) == dot_kept(digit, n - 1, p2));
        }
    }
}

/// The dot at position `i` of `s` stands between two decimal digits.
pub open spec fn dot_between_digits(s: Seq<char>, i: int) -> bool {
    &&& 0 < i
    &&& i + 1 < s.len()
    &&& is_unicode_decimal_digit(s[i - 1])
    &&& is_unicode_decimal_digit(s[i + 1])
}

/// Keeping dots between decimal digits keeps exactly those: where no dot of
/// the text stands between two decimal digits (a dot at either end, or next
/// to a non-digit), the filter treats every dot as with `ReplaceAllDots`;
/// where every dot stands between two decimal digits, it keeps every dot as
/// with `PreserveAllDots`.
pub proof fn law_dots_kept_only_between_digits(s: Seq<char>, set: AllowedCharacterSet, d: char)
    ensures
        (forall|i: int| 0 <= i < s.len() && #[trigger] s[i] == '.' ==> !dot_between_digits(s, i))
            ==> filtered(s, set, DotHandlingPolicy::PreserveDotsBetweenDecimalDigits, d) == filtered(
            s,
            set,
            DotHandlingPolicy::ReplaceAllDots,
            d,
        ),
        (forall|i: int| 0 <= i < s.len() && #[trigger] s[i] == '.' ==> dot_between_digits(s, i))
            ==> filtered(s, set, DotHandlingPolicy::PreserveDotsBetweenDecimalDigits, d) == filtered(
            s,
            set,
            DotHandlingPolicy::PreserveAllDots,
            d,
        ),
{
    let kept = allowed_marks(s, set);
    let digit = digit_marks(s);
    let between = DotHandlingPolicy::PreserveDotsBetweenDecimalDigits;
    if forall|i: int| 0 <= i < s.len() && #[trigger] s[i] == '.' ==> !dot_between_digits(s, i) {
        assert forall|i: int|
            0 <= i < s.len() && #[trigger] s[i] == '.' && !kept[i] implies dot_kept(digit, i, between)
            == dot_kept(digit, i, DotHandlingPolicy::ReplaceAllDots) by {
            assert(!dot_between_digits(s, i));
            if 0 < i && i + 1 < s.len() {
                assert(digit[i - 1] == is_unicode_decimal_digit(s[i - 1]));
                assert(digit[i + 1] == is_unicode_decimal_digit(s[i + 1]));
            }
        }
        lemma_prefix_same_dots(s, kept, digit, s.len(), between, DotHandlingPolicy::ReplaceAllDots, d);
    }
    if forall|i: int| 0 <= i < s.len() && #[trigger] s[i] == '.' ==> dot_between_digits(s, i) {
        assert forall|i: int|
            0 <= i < s.len() && #[trigger] s[i] == '.' && !kept[i] implies dot_kept(digit, i, between)
            == dot_kept(digit, i, DotHandlingPolicy::PreserveAllDots) by {
            assert(dot_between_digits(s, i));
            assert(digit[i - 1] == is_unicode_decimal_digit(s[i - 1]));
            assert(digit[i + 1] == is_unicode_decimal_digit(s[i + 1]));
        }
        lemma_prefix_same_dots(s, kept, digit, s.len(), between, DotHandlingPolicy::PreserveAllDots, d);
    }
}

/// Among ASCII characters, each of the three sets admits exactly the
/// letters `A..=Z`, `a..=z` and the digits `0..=9`: no ASCII punctuation
/// (such as `_`), space or control character passes the filter.
pub proof fn law_ascii_characters_pass_as_letters_and_digits(c: char, set: AllowedCharacterSet)
    requires
        c <= '\x7f',
    ensures
        char_allowed(c, set) <==> (('A' <= c && c <= 'Z') || ('a' <= c && c <= 'z') || ('0' <= c
            && c <= '9')),
{
}

} // verus!


