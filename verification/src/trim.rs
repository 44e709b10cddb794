use vstd::prelude::*;

verus! {

/// `s` without its leading run of `d`.
pub open spec fn strip_leading(s: Seq<char>, d: char) -> Seq<char>
    decreases s.len(),
{
    if s.len() > 0 && s[0] == d {
        strip_leading(s.drop_first(), d)
    } else {
        s
    }
}

/// `s` without its trailing run of `d`.
pub open spec fn strip_trailing(s: Seq<char>, d: char) -> Seq<char>
    decreases s.len(),
{
    if s.len() > 0 && s.last() == d {
        strip_trailing(s.drop_last(), d)
    } else {
        s
    }
}

/// `s` with every leading and trailing `d` removed (`str::trim_matches`).
pub open spec fn trim_delimiter(s: Seq<char>, d: char) -> Seq<char> {
    strip_trailing(strip_leading(s, d), d)
}

/// At most the first `max` characters of `s`, then without the trailing run
/// of `d` that the cut may expose.
pub open spec fn truncated(s: Seq<char>, max: nat, d: char) -> Seq<char> {
    strip_trailing(
        if s.len() > max {
            s.take(max as int)
        } else {
            s
        },
        d,
    )
}

proof fn lemma_strip_leading_step(s: Seq<char>, i: int, d: char)
    requires
        0 <= i < s.len(),
        s[i] == d,
    ensures
        strip_leading(s.skip(i), d) == strip_leading(s.skip(i + 1), d),
{
    assert(s.skip(i).drop_first() =~= s.skip(i + 1));
}

proof fn lemma_strip_trailing_step(s: Seq<char>, j: int, d: char)
    requires
        0 < j <= s.len(),
        s[j - 1] == d,
    ensures
        strip_trailing(s.take(j), d) == strip_trailing(s.take(j - 1), d),
{
    assert(s.take(j).drop_last() =~= s.take(j - 1));
}

/// `strip_trailing` gives a prefix that is empty or does not end with `d`.
pub proof fn lemma_strip_trailing_shape(s: Seq<char>, d: char)
    ensures
        strip_trailing(s, d).len() <= s.len(),
        strip_trailing(s, d) =~= s.take(strip_trailing(s, d).len() as int),
        strip_trailing(s, d).len() == 0 || strip_trailing(s, d).last() != d,
    decreases s.len(),
{
    if s.len() > 0 && s.last() == d {
        lemma_strip_trailing_shape(s.drop_last(), d);
        let r = strip_trailing(s.drop_last(), d);
        assert(s.drop_last().take(r.len() as int) =~= s.take(r.len() as int));
    }
}

/// `strip_leading` gives a suffix that is empty or does not start with `d`.
pub proof fn lemma_strip_leading_shape(s: Seq<char>, d: char)
    ensures
        strip_leading(s, d).len() <= s.len(),
        strip_leading(s, d) =~= s.skip(s.len() - strip_leading(s, d).len()),
        strip_leading(s, d).len() == 0 || strip_leading(s, d)[0] != d,
    decreases s.len(),
{
    if s.len() > 0 && s[0] == d {
        lemma_strip_leading_shape(s.drop_first(), d);
        let r = strip_leading(s.drop_first(), d);
        assert(s.drop_first().skip(s.drop_first().len() - r.len()) =~= s.skip(s.len() - r.len()));
    }
}

proof fn lemma_strip_trailing_take(t: Seq<char>, m: int, d: char)
    requires
        strip_trailing(t, d).len() <= m <= t.len(),
    ensures
        strip_trailing(t, d) == strip_trailing(t.take(m), d),
    decreases t.len(),
{
    if m == t.len() {
        assert(t.take(m) =~= t);
    } else {
        assert(t.len() > 0 && t.last() == d);
        let rest = t.drop_last();
        lemma_strip_trailing_take(rest, m, d);
        assert(rest.take(m) =~= t.take(m));
    }
}

/// Cutting to `n` characters and then to `m <= n` gives the same slug text as
/// cutting to `m` directly.
pub proof fn law_truncation_composes(s: Seq<char>, n: nat, m: nat, d: char)
    requires
        m <= n,
    ensures
        truncated(truncated(s, n, d), m, d) == truncated(s, m, d),
{
    let t = if s.len() > n {
        s.take(n as int)
    } else {
        s
    };
    lemma_strip_trailing_shape(t, d);
    let r = strip_trailing(t, d);
    let k = r.len();
    if k > m {
        assert(r.take(m as int) =~= s.take(m as int));
    } else {
        lemma_strip_trailing_shape(r, d);
        if r.len() > 0 {
            assert(strip_trailing(r, d) == r);
        }
        let m2: int = if s.len() > m {
            m as int
        } else {
            s.len() as int
        };
        assert((if s.len() > m {
            s.take(m as int)
        } else {
            s
        }) =~= t.take(m2));
        lemma_strip_trailing_take(t, m2, d);
    }
}

/// Removes every leading and trailing `d` from `value`.
pub(crate) fn trim_matches(value: &Vec<char>, d: char) -> (r: Vec<char>)
    ensures
        r@ == trim_delimiter(value@, d),
        r@.len() == 0 || (r@[0] != d && r@.last() != d),
{
    let n = value.len();
    let mut start: usize = 0;
    assert(value@.skip(0) =~= value@);
    while start < n && value[start] == d
        invariant
            n == value@.len(),
            start <= n,
            strip_leading(value@, d) == strip_leading(value@.skip(start as int), d),
        decreases n - start,
    {
        proof {
            lemma_strip_leading_step(value@, start as int, d);
        }
        start = start + 1;
    }
    let ghost lead = value@.skip(start as int);
    assert(strip_leading(value@, d) == lead);
    let mut end: usize = n;
    assert(lead.take(lead.len() as int) =~= lead);
    while end > start && value[end - 1] == d
        invariant
            n == value@.len(),
            start <= end <= n,
            lead == value@.skip(start as int),
            strip_trailing(lead, d) == strip_trailing(lead.take(end - start), d),
        decreases end,
    {
        proof {
            lemma_strip_trailing_step(lead, (end - start) as int, d);
        }
        end = end - 1;
    }
    let mut out: Vec<char> = Vec::new();
    let mut k = start;
    while k < end
        invariant
            n == value@.len(),
            start <= k <= end <= n,
            out@ =~= value@.subrange(start as int, k as int),
        decreases end - k,
    {
        out.push(value[k]);
        k = k + 1;
    }
    assert(out@ =~= lead.take(end - start));
    out
}

/// Keep at most `max_chars` characters, then drop a trailing
/// `replacement_delimiter` the cut may have exposed.
pub(crate) fn truncate_chars(value: Vec<char>, max_chars: usize, replacement_delimiter: char) -> (r:
    Vec<char>)
    ensures
        r@ == truncated(value@, max_chars as nat, replacement_delimiter),
        r@.len() <= max_chars,
        r@.len() == 0 || r@.last() != replacement_delimiter,
{
    let mut value = value;
    if value.len() > max_chars {
        value.truncate(max_chars);
    }
    let ghost cut = value@;
    assert(cut.take(cut.len() as int) =~= cut);
    while value.len() > 0 && value[value.len() - 1] == replacement_delimiter
        invariant
            value@ == cut.take(value@.len() as int),
            value@.len() <= cut.len(),
            strip_trailing(cut, replacement_delimiter) == strip_trailing(
                cut.take(value@.len() as int),
                replacement_delimiter,
            ),
        decreases value@.len(),
    {
        proof {
            lemma_strip_trailing_step(cut, value@.len() as int, replacement_delimiter);
        }
        value.pop();
        assert(value@ =~= cut.take(value@.len() as int));
    }
    value
}

} // verus!
