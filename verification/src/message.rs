use vstd::prelude::*;

use crate::chars::string_push;
use crate::config::SlugError;

verus! {

/// The uppercase hexadecimal digit for `v` (below 16).
pub open spec fn hex_digit(v: nat) -> char {
    if v < 10 {
        (48 + v) as char
    } else {
        (55 + v) as char
    }
}

/// The uppercase hexadecimal digits of `n`, without leading zeros.
pub open spec fn hex_digits(n: nat) -> Seq<char>
    decreases n,
{
    if n < 16 {
        seq![hex_digit(n)]
    } else {
        hex_digits(n / 16).push(hex_digit(n % 16))
    }
}

/// `n` in uppercase hexadecimal, zero-padded to at least four digits
/// (the `{:04X}` format).
pub open spec fn hex_at_least_four(n: nat) -> Seq<char> {
    let h = hex_digits(n);
    if h.len() < 4 {
        Seq::new((4 - h.len()) as nat, |i: int| '0') + h
    } else {
        h
    }
}

/// The human-readable description of each error.
pub open spec fn error_message(e: SlugError) -> Seq<char> {
    match e {
        SlugError::EmptyTransliterationPattern => "transliteration patterns must not be empty"@,
        SlugError::EmptyPathSegment => "path segment must not be empty"@,
        SlugError::PathSegmentSeparator { character } => "path segment must not contain separator `"@
            + seq![character, '`'],
        SlugError::PathSegmentWhitespace { character } =>
            "path segment must not contain whitespace `"@ + seq![character, '`'],
        SlugError::PathSegmentControlCharacter { character } =>
            "path segment must not contain control character U+"@ + hex_at_least_four(
            character as nat,
        ),
        SlugError::PathSegmentDotValue => "path segment must not be `.` or `..`"@,
        SlugError::UrlPathSegmentReservedCharacter { character } =>
            "URL path segment must not contain reserved character `"@ + seq![character, '`'],
    }
}

fn hex_digit_char(v: u32) -> (c: char)
    requires
        v < 16,
    ensures
        c == hex_digit(v as nat),
{
    let b = v as u8;
    if b < 10 {
        (48u8 + b) as char
    } else {
        (55u8 + b) as char
    }
}

fn push_hex_digits(s: &mut String, n: u32)
    ensures
        final(s)@ == old(s)@ + hex_digits(n as nat),
    decreases n,
{
    if n < 16 {
        string_push(s, hex_digit_char(n));
    } else {
        push_hex_digits(s, n / 16);
        string_push(s, hex_digit_char(n % 16));
    }
}

proof fn lemma_hex_digits_len(n: nat)
    ensures
        n < 16 ==> hex_digits(n).len() == 1,
        16 <= n < 0x100 ==> hex_digits(n).len() == 2,
        0x100 <= n < 0x1000 ==> hex_digits(n).len() == 3,
        0x1000 <= n ==> hex_digits(n).len() >= 4,
    decreases n,
{
    if n >= 16 {
        lemma_hex_digits_len(n / 16);
    }
}

fn push_hex_at_least_four(s: &mut String, n: u32)
    ensures
        final(s)@ == old(s)@ + hex_at_least_four(n as nat),
{
    proof {
        lemma_hex_digits_len(n as nat);
    }
    let ghost h = hex_digits(n as nat);
    let pad: usize = if n < 0x10 {
        3
    } else if n < 0x100 {
        2
    } else if n < 0x1000 {
        1
    } else {
        0
    };
    assert(pad as nat == if h.len() < 4 { (4 - h.len()) as nat } else { 0nat });
    let ghost start = s@;
    for i in 0..pad
        invariant
            s@ == start + Seq::new(i as nat, |k: int| '0'),
    {
        string_push(s, '0');
        assert(Seq::new((i + 1) as nat, |k: int| '0') =~= Seq::new(i as nat, |k: int| '0').push(
            '0',
        ));
    }
    push_hex_digits(s, n);
    proof {
        if h.len() < 4 {
            assert(s@ =~= start + hex_at_least_four(n as nat));
        } else {
            assert(Seq::new(0, |k: int| '0') + h =~= h);
            assert(s@ =~= start + hex_at_least_four(n as nat));
        }
    }
}

fn text_with_char(prefix: &str, c: char) -> (s: String)
    ensures
        s@ == prefix@ + seq![c, '`'],
{
    let mut s = String::from_str(prefix);
    string_push(&mut s, c);
    string_push(&mut s, '`');
    assert(s@ =~= prefix@ + seq![c, '`']);
    s
}

impl SlugError {
    /// The human-readable description of this error.
    pub fn message(&self) -> (m: String)
        ensures
            m@ == error_message(*self),
    {
        match self {
            SlugError::EmptyTransliterationPattern => String::from_str(
                "transliteration patterns must not be empty",
            ),
            SlugError::EmptyPathSegment => String::from_str("path segment must not be empty"),
            SlugError::PathSegmentSeparator { character } => text_with_char(
                "path segment must not contain separator `",
                *character,
            ),
            SlugError::PathSegmentWhitespace { character } => text_with_char(
                "path segment must not contain whitespace `",
                *character,
            ),
            SlugError::PathSegmentControlCharacter { character } => {
                let mut s = String::from_str("path segment must not contain control character U+");
                push_hex_at_least_four(&mut s, *character as u32);
                s
            },
            SlugError::PathSegmentDotValue => String::from_str(
                "path segment must not be `.` or `..`",
            ),
            SlugError::UrlPathSegmentReservedCharacter { character } => text_with_char(
                "URL path segment must not contain reserved character `",
                *character,
            ),
        }
    }
}

} // verus!
