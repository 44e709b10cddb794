use vstd::prelude::*;

verus! {

/// What `char::is_alphanumeric` answers for `c` (Unicode `Alphabetic` or `Numeric`).
pub uninterp spec fn unicode_alphanumeric(c: char) -> bool;

/// The characters with the Unicode `White_Space` property, which
/// `char::is_whitespace` tests: U+0009 to U+000D, U+0020, U+0085, U+00A0,
/// U+1680, U+2000 to U+200A, U+2028, U+2029, U+202F, U+205F and U+3000.
pub open spec fn unicode_whitespace(c: char) -> bool {
    ||| ('\u{9}' <= c && c <= '\u{d}')
    ||| c == ' '
    ||| c == '\u{85}'
    ||| c == '\u{a0}'
    ||| c == '\u{1680}'
    ||| ('\u{2000}' <= c && c <= '\u{200a}')
    ||| c == '\u{2028}'
    ||| c == '\u{2029}'
    ||| c == '\u{202f}'
    ||| c == '\u{205f}'
    ||| c == '\u{3000}'
}

/// The characters of Unicode general category `Cc`, which `char::is_control`
/// tests: U+0000 to U+001F and U+007F to U+009F.
pub open spec fn unicode_control(c: char) -> bool {
    c <= '\u{1f}' || ('\u{7f}' <= c && c <= '\u{9f}')
}

/// What `str::to_lowercase` returns for a string with the characters `s`.
pub uninterp spec fn unicode_lowercase(s: Seq<char>) -> Seq<char>;

/// The two-letter abbreviation (such as `Lu` or `Nd`) of the general category
/// that `unicode_general_category::get_general_category` reports for `c`.
pub uninterp spec fn general_category_abbreviation(c: char) -> Seq<char>;

/// Calls `char::is_alphanumeric`, which is `is_alphabetic() || is_numeric()`.
/// The result is named; the contract states only the ASCII part: an ASCII
/// character is alphabetic exactly when it is a letter `A..=Z` or `a..=z`,
/// and numeric exactly when it is a digit `0..=9`, so no other ASCII
/// character (no punctuation, space or control character) is alphanumeric.
#[verifier::external_body]
pub(crate) fn char_is_alphanumeric(c: char) -> (r: bool)
    ensures
        r == unicode_alphanumeric(c),
        is_ascii_char(c) ==> (r <==> is_ascii_alnum(c)),
{
    c.is_alphanumeric()
}

/// Whether `c` is a `White_Space` character, as `char::is_whitespace`
/// answers: the few characters listed at `unicode_whitespace`.
pub(crate) fn char_is_whitespace(c: char) -> (r: bool)
    ensures
        r == unicode_whitespace(c),
{
    ('\u{9}' <= c && c <= '\u{d}') || c == ' ' || c == '\u{85}' || c == '\u{a0}' || c
        == '\u{1680}' || ('\u{2000}' <= c && c <= '\u{200a}') || c == '\u{2028}' || c
        == '\u{2029}' || c == '\u{202f}' || c == '\u{205f}' || c == '\u{3000}'
}

/// Whether `c` is a control character of general category `Cc`, as
/// `char::is_control` answers: U+0000 to U+001F and U+007F to U+009F.
pub(crate) fn char_is_control(c: char) -> (r: bool)
    ensures
        r == unicode_control(c),
{
    c <= '\u{1f}' || ('\u{7f}' <= c && c <= '\u{9f}')
}

/// Calls `str::to_lowercase`; the characters of the result are named, not
/// stated (the Unicode lowercase mapping, including its context rules).
#[verifier::external_body]
pub(crate) fn str_to_lowercase(s: &str) -> (r: String)
    ensures
        r@ == unicode_lowercase(s@),
{
    s.to_lowercase()
}

/// Calls `unicode_general_category::get_general_category` and turns the
/// category into its abbreviation with `GeneralCategory::abbreviation`, which
/// maps each category to its own two-letter code. The abbreviation is named;
/// the contract states only what the crate's table shows for ASCII characters
/// (letters `A..=Z` are `Lu`, `a..=z` are `Ll`, digits are `Nd`, and no other
/// ASCII character is a letter or a decimal digit) and for the `White_Space`
/// characters (each is `Cc`, `Zs`, `Zl` or `Zp`, so neither a letter nor a
/// decimal digit).
#[verifier::external_body]
pub(crate) fn category_abbreviation(c: char) -> (r: &'static str)
    ensures
        r@ == general_category_abbreviation(c),
        is_ascii_char(c) ==> (is_letter_abbreviation(r@) <==> is_ascii_letter(c)),
        is_ascii_char(c) ==> (is_decimal_abbreviation(r@) <==> is_ascii_decimal(c)),
        unicode_whitespace(c) ==> !is_letter_abbreviation(r@) && !is_decimal_abbreviation(r@),
{
    unicode_general_category::get_general_category(c).abbreviation()
}

/// `char::is_ascii`: the code point is at most U+007F.
pub open spec fn is_ascii_char(c: char) -> bool {
    c <= '\x7f'
}

/// `char::is_ascii_alphabetic`: `A..=Z` or `a..=z`.
pub open spec fn is_ascii_letter(c: char) -> bool {
    ('A' <= c && c <= 'Z') || ('a' <= c && c <= 'z')
}

/// `char::is_ascii_digit`: `0..=9`.
pub open spec fn is_ascii_decimal(c: char) -> bool {
    '0' <= c && c <= '9'
}

/// `char::is_ascii_alphanumeric`.
pub open spec fn is_ascii_alnum(c: char) -> bool {
    is_ascii_letter(c) || is_ascii_decimal(c)
}

/// A general category abbreviation of a letter: `Lu`, `Ll`, `Lt`, `Lm` or `Lo`.
pub open spec fn is_letter_abbreviation(a: Seq<char>) -> bool {
    &&& a.len() == 2
    &&& a[0] == 'L'
    &&& (a[1] == 'u' || a[1] == 'l' || a[1] == 't' || a[1] == 'm' || a[1] == 'o')
}

/// The general category abbreviation of a decimal digit: `Nd`.
pub open spec fn is_decimal_abbreviation(a: Seq<char>) -> bool {
    a.len() == 2 && a[0] == 'N' && a[1] == 'd'
}

/// A Unicode letter: an ASCII letter, or a non-ASCII character whose general
/// category is one of the letter categories.
pub open spec fn is_unicode_letter(c: char) -> bool {
    if is_ascii_char(c) {
        is_ascii_letter(c)
    } else {
        is_letter_abbreviation(general_category_abbreviation(c))
    }
}

/// A Unicode decimal digit: an ASCII digit, or a non-ASCII character of
/// general category `Nd`.
pub open spec fn is_unicode_decimal_digit(c: char) -> bool {
    if is_ascii_char(c) {
        is_ascii_decimal(c)
    } else {
        is_decimal_abbreviation(general_category_abbreviation(c))
    }
}

/// A Unicode alphanumeric character: an ASCII letter or digit, or a
/// non-ASCII character that `char::is_alphanumeric` accepts.
pub open spec fn is_unicode_alphanumeric(c: char) -> bool {
    if is_ascii_char(c) {
        is_ascii_alnum(c)
    } else {
        unicode_alphanumeric(c)
    }
}

pub(crate) fn ascii_alnum(c: char) -> (r: bool)
    ensures
        r == is_ascii_alnum(c),
{
    ('A' <= c && c <= 'Z') || ('a' <= c && c <= 'z') || ('0' <= c && c <= '9')
}

/// Whether `c` is a Unicode letter. The answer is also exactly whether its
/// general category is a letter category, ASCII characters included, and no
/// `White_Space` character is a letter.
pub(crate) fn unicode_letter(c: char) -> (r: bool)
    ensures
        r == is_unicode_letter(c),
        r == is_letter_abbreviation(general_category_abbreviation(c)),
        unicode_whitespace(c) ==> !r,
{
    let a = category_abbreviation(c);
    if c <= '\x7f' {
        return ('A' <= c && c <= 'Z') || ('a' <= c && c <= 'z');
    }
    if a.unicode_len() != 2 {
        return false;
    }
    let first = a.get_char(0);
    let second = a.get_char(1);
    first == 'L' && (second == 'u' || second == 'l' || second == 't' || second == 'm'
        || second == 'o')
}

/// Whether `c` is a Unicode decimal digit. The answer is also exactly whether
/// its general category is `Nd`, ASCII characters included, and no
/// `White_Space` character is a decimal digit.
pub(crate) fn unicode_decimal_digit(c: char) -> (r: bool)
    ensures
        r == is_unicode_decimal_digit(c),
        r == is_decimal_abbreviation(general_category_abbreviation(c)),
        unicode_whitespace(c) ==> !r,
{
    let a = category_abbreviation(c);
    if c <= '\x7f' {
        return '0' <= c && c <= '9';
    }
    if a.unicode_len() != 2 {
        return false;
    }
    a.get_char(0) == 'N' && a.get_char(1) == 'd'
}

/// The ASCII character set is inside the Unicode letters-and-decimal-digits
/// set, and neither of the two admits `.` or `-`.
pub proof fn law_ascii_set_within_letters_and_digits(c: char)
    ensures
        is_ascii_alnum(c) ==> is_unicode_letter(c) || is_unicode_decimal_digit(c),
        !is_ascii_alnum('.') && !is_ascii_alnum('-'),
        !is_unicode_letter('.') && !is_unicode_decimal_digit('.'),
        !is_unicode_letter('-') && !is_unicode_decimal_digit('-'),
        unicode_whitespace(c) ==> !is_ascii_alnum(c),
{
}

} // verus!
