use vstd::prelude::*;

use crate::chars::str_chars;
use crate::config::{SlugError, TransliterationPolicy};

verus! {

/// The (pattern, replacement) pairs of a static replacement map, as characters.
pub open spec fn pattern_pairs(map: Seq<(&'static str, &'static str)>) -> Seq<(Seq<char>, Seq<char>)> {
    map.map_values(|p: (&'static str, &'static str)| (p.0@, p.1@))
}

/// `pattern` is non-empty and `s` starts with it.
pub open spec fn is_match(pattern: Seq<char>, s: Seq<char>) -> bool {
    0 < pattern.len() <= s.len() && s.take(pattern.len() as int) == pattern
}

/// `a` comes before `b` in character order: lexicographically, by code
/// point, a proper prefix before its extensions.
pub open spec fn chars_before(a: Seq<char>, b: Seq<char>) -> bool
    decreases a.len(),
{
    if a.len() == 0 {
        b.len() > 0
    } else if b.len() == 0 {
        false
    } else if a[0] != b[0] {
        a[0] < b[0]
    } else {
        chars_before(a.drop_first(), b.drop_first())
    }
}

/// Among the first `k` pairs, the index of a longest pattern that `s` starts
/// with; of several entries with that pattern, one whose replacement comes
/// first in character order.
pub open spec fn best_match_upto(s: Seq<char>, pairs: Seq<(Seq<char>, Seq<char>)>, k: nat) -> Option<
    int,
>
    decreases k,
{
    if k == 0 {
        None
    } else {
        let r = best_match_upto(s, pairs, (k - 1) as nat);
        let i = k - 1;
        let better = r is None || pairs[r->0].0.len() < pairs[i].0.len() || (pairs[r->0].0.len()
            == pairs[i].0.len() && chars_before(pairs[i].1, pairs[r->0].1));
        if is_match(pairs[i].0, s) && better {
            Some(i)
        } else {
            r
        }
    }
}

/// The index of the pair whose pattern is applied at the start of `s`.
pub open spec fn best_match(s: Seq<char>, pairs: Seq<(Seq<char>, Seq<char>)>) -> Option<int> {
    best_match_upto(s, pairs, pairs.len())
}

/// Left to right, replace the longest pattern that starts at the current
/// position by its replacement, or copy one character when none does. (The
/// chosen pattern always matches, see `law_longest_pattern_wins`; testing it
/// here keeps the recursion visibly well-founded.)
pub open spec fn transliterate(s: Seq<char>, pairs: Seq<(Seq<char>, Seq<char>)>) -> Seq<char>
    decreases s.len(),
{
    if s.len() == 0 {
        seq![]
    } else {
        let b = best_match(s, pairs);
        if b is Some && 0 <= b->0 < pairs.len() && is_match(pairs[b->0].0, s) {
            pairs[b->0].1 + transliterate(s.skip(pairs[b->0].0.len() as int), pairs)
        } else {
            seq![s[0]] + transliterate(s.skip(1), pairs)
        }
    }
}

/// Some pattern of `pairs` is empty.
pub open spec fn has_empty_pattern(pairs: Seq<(Seq<char>, Seq<char>)>) -> bool {
    exists|i: int| 0 <= i < pairs.len() && #[trigger] pairs[i].0.len() == 0
}

/// What the transliteration step makes of `input` under `policy`.
pub open spec fn transliteration_outcome(input: Seq<char>, policy: TransliterationPolicy) -> Result<
    Seq<char>,
    SlugError,
> {
    match policy {
        TransliterationPolicy::NoTransliteration => Ok(input),
        TransliterationPolicy::StaticReplacementMap(map) => {
            let pairs = pattern_pairs(map@);
            if has_empty_pattern(pairs) {
                Err(SlugError::EmptyTransliterationPattern)
            } else {
                Ok(transliterate(input, pairs))
            }
        },
    }
}

proof fn lemma_best_match_upto_sound(s: Seq<char>, pairs: Seq<(Seq<char>, Seq<char>)>, k: nat)
    requires
        k <= pairs.len(),
    ensures
        best_match_upto(s, pairs, k) matches Some(i) ==> 0 <= i < k && is_match(pairs[i].0, s),
    decreases k,
{
    if k > 0 {
        lemma_best_match_upto_sound(s, pairs, (k - 1) as nat);
    }
}

fn append_chars(out: &mut Vec<char>, src: &Vec<char>)
    ensures
        final(out)@ == old(out)@ + src@,
{
    let n = src.len();
    for i in 0..n
        invariant
            n == src@.len(),
            out@ == old(out)@ + src@.take(i as int),
    {
        out.push(src[i]);
        assert(src@.take(i + 1) =~= src@.take(i as int).push(src@[i as int]));
    }
    assert(src@.take(n as int) =~= src@);
}

/// Whether `s[pos..]` starts with the non-empty `pattern`.
fn matches_at(s: &Vec<char>, pos: usize, pattern: &Vec<char>) -> (r: bool)
    requires
        pos <= s@.len(),
    ensures
        r == is_match(pattern@, s@.skip(pos as int)),
{
    let n = s.len();
    let m = pattern.len();
    if m == 0 || m > n - pos {
        return false;
    }
    for j in 0..m
        invariant
            n == s@.len(),
            m == pattern@.len(),
            pos + m <= n,
            forall|t: int| 0 <= t < j ==> s@[pos + t] == pattern@[t],
    {
        if s[pos + j] != pattern[j] {
            assert(s@.skip(pos as int).take(m as int)[j as int] != pattern@[j as int]);
            return false;
        }
    }
    assert(s@.skip(pos as int).take(m as int) =~= pattern@);
    true
}

proof fn lemma_chars_before_step(a: Seq<char>, b: Seq<char>, i: int)
    requires
        0 <= i < a.len(),
        i < b.len(),
        a[i] == b[i],
    ensures
        chars_before(a.skip(i), b.skip(i)) == chars_before(a.skip(i + 1), b.skip(i + 1)),
{
    assert(a.skip(i).drop_first() =~= a.skip(i + 1));
    assert(b.skip(i).drop_first() =~= b.skip(i + 1));
}

/// Whether `a` comes before `b` in character order.
fn chars_before_exec(a: &Vec<char>, b: &Vec<char>) -> (r: bool)
    ensures
        r == chars_before(a@, b@),
{
    let mut i: usize = 0;
    assert(a@.skip(0) =~= a@ && b@.skip(0) =~= b@);
    while i < a.len() && i < b.len() && a[i] == b[i]
        invariant
            i <= a@.len(),
            i <= b@.len(),
            chars_before(a@, b@) == chars_before(a@.skip(i as int), b@.skip(i as int)),
        decreases a@.len() - i,
    {
        proof {
            lemma_chars_before_step(a@, b@, i as int);
        }
        i = i + 1;
    }
    if i == a.len() {
        i < b.len()
    } else if i == b.len() {
        false
    } else {
        assert(a@.skip(i as int)[0] == a@[i as int] && b@.skip(i as int)[0] == b@[i as int]);
        a[i] < b[i]
    }
}

/// The pair applied at `s[pos..]`, as `best_match` describes it.
fn find_best(s: &Vec<char>, pos: usize, pairs: &Vec<(Vec<char>, Vec<char>)>, Ghost(spec_pairs): Ghost<
    Seq<(Seq<char>, Seq<char>)>,
>) -> (r: Option<usize>)
    requires
        pos <= s@.len(),
        pairs@.len() == spec_pairs.len(),
        forall|j: int|
            0 <= j < pairs@.len() ==> (#[trigger] pairs@[j]).0@ == spec_pairs[j].0 && pairs@[j].1@
                == spec_pairs[j].1,
    ensures
        match r {
            Some(i) => best_match(s@.skip(pos as int), spec_pairs) == Some(i as int),
            None => best_match(s@.skip(pos as int), spec_pairs) is None,
        },
{
    let ghost t = s@.skip(pos as int);
    let mut best: Option<usize> = None;
    let mut best_len: usize = 0;
    let m = pairs.len();
    for k in 0..m
        invariant
            m == pairs@.len(),
            m == spec_pairs.len(),
            pos <= s@.len(),
            t == s@.skip(pos as int),
            forall|j: int|
                0 <= j < pairs@.len() ==> (#[trigger] pairs@[j]).0@ == spec_pairs[j].0
                    && pairs@[j].1@ == spec_pairs[j].1,
            match best {
                Some(i) => i < k && best_match_upto(t, spec_pairs, k as nat) == Some(i as int)
                    && best_len == spec_pairs[i as int].0.len(),
                None => best_match_upto(t, spec_pairs, k as nat) is None,
            },
    {
        let pattern = &pairs[k].0;
        if matches_at(s, pos, pattern) {
            let len = pattern.len();
            match best {
                None => {
                    best = Some(k);
                    best_len = len;
                },
                Some(b) => {
                    if best_len < len || (best_len == len && chars_before_exec(
                        &pairs[k].1,
                        &pairs[b].1,
                    )) {
                        best = Some(k);
                        best_len = len;
                    }
                },
            }
        }
    }
    best
}

/// Applies the transliteration step of `policy` to `input`.
pub(crate) fn apply_transliteration(input: Vec<char>, policy: TransliterationPolicy) -> (r: Result<
    Vec<char>,
    SlugError,
>)
    ensures
        match r {
            Ok(v) => transliteration_outcome(input@, policy) == Ok::<Seq<char>, SlugError>(v@),
            Err(e) => transliteration_outcome(input@, policy) == Err::<Seq<char>, SlugError>(e),
        },
{
    let map = match policy {
        TransliterationPolicy::NoTransliteration => return Ok(input),
        TransliterationPolicy::StaticReplacementMap(map) => map,
    };
    let ghost spec_pairs = pattern_pairs(map@);
    let mut pairs: Vec<(Vec<char>, Vec<char>)> = Vec::new();
    let m = map.len();
    for k in 0..m
        invariant
            m == map@.len(),
            spec_pairs == pattern_pairs(map@),
            pairs@.len() == k,
            forall|j: int|
                0 <= j < k ==> (#[trigger] pairs@[j]).0@ == spec_pairs[j].0 && pairs@[j].1@
                    == spec_pairs[j].1,
    {
        let (pattern, replacement) = map[k];
        pairs.push((str_chars(pattern), str_chars(replacement)));
    }
    for k in 0..m
        invariant
            m == pairs@.len(),
            m == spec_pairs.len(),
            spec_pairs == pattern_pairs(map@),
            policy == TransliterationPolicy::StaticReplacementMap(map),
            forall|j: int|
                0 <= j < pairs@.len() ==> (#[trigger] pairs@[j]).0@ == spec_pairs[j].0
                    && pairs@[j].1@ == spec_pairs[j].1,
            forall|j: int| 0 <= j < k ==> #[trigger] spec_pairs[j].0.len() != 0,
    {
        if pairs[k].0.len() == 0 {
            assert(spec_pairs[k as int].0.len() == 0);
            assert(has_empty_pattern(spec_pairs));
            return Err(SlugError::EmptyTransliterationPattern);
        }
    }
    assert(!has_empty_pattern(spec_pairs));
    let n = input.len();
    let mut output: Vec<char> = Vec::new();
    let mut pos: usize = 0;
    assert(input@.skip(0) =~= input@);
    while pos < n
        invariant
            n == input@.len(),
            pos <= n,
            spec_pairs == pattern_pairs(map@),
            policy == TransliterationPolicy::StaticReplacementMap(map),
            !has_empty_pattern(spec_pairs),
            m == pairs@.len(),
            m == spec_pairs.len(),
            forall|j: int|
                0 <= j < pairs@.len() ==> (#[trigger] pairs@[j]).0@ == spec_pairs[j].0
                    && pairs@[j].1@ == spec_pairs[j].1,
            output@ + transliterate(input@.skip(pos as int), spec_pairs) == transliterate(
                input@,
                spec_pairs,
            ),
        decreases n - pos,
    {
        let ghost t = input@.skip(pos as int);
        proof {
            lemma_best_match_upto_sound(t, spec_pairs, spec_pairs.len());
        }
        match find_best(&input, pos, &pairs, Ghost(spec_pairs)) {
            Some(i) => {
                let len = pairs[i].0.len();
                append_chars(&mut output, &pairs[i].1);
                assert(t.skip(len as int) =~= input@.skip(pos + len));
                pos = pos + len;
            },
            None => {
                output.push(input[pos]);
                assert(t.skip(1) =~= input@.skip(pos + 1));
                pos = pos + 1;
            },
        }
    }
    assert(input@.skip(n as int) =~= Seq::<char>::empty());
    assert(output@ + Seq::<char>::empty() =~= output@);
    Ok(output)
}


proof fn lemma_chars_before_irreflexive(a: Seq<char>)
    ensures
        !chars_before(a, a),
    decreases a.len(),
{
    if a.len() > 0 {
        lemma_chars_before_irreflexive(a.drop_first());
    }
}

proof fn lemma_chars_before_transitive(a: Seq<char>, b: Seq<char>, c: Seq<char>)
    requires
        chars_before(a, b),
        chars_before(b, c),
    ensures
        chars_before(a, c),
    decreases a.len(),
{
    if a.len() > 0 && b.len() > 0 && c.len() > 0 && a[0] == b[0] && b[0] == c[0] {
        lemma_chars_before_transitive(a.drop_first(), b.drop_first(), c.drop_first());
    }
}

proof fn lemma_chars_before_total(a: Seq<char>, b: Seq<char>)
    requires
        !chars_before(a, b),
        !chars_before(b, a),
    ensures
        a == b,
    decreases a.len(),
{
    if a.len() > 0 && b.len() > 0 {
        lemma_chars_before_total(a.drop_first(), b.drop_first());
        assert(a =~= seq![a[0]] + a.drop_first());
        assert(b =~= seq![b[0]] + b.drop_first());
    } else {
        assert(a =~= b);
    }
}

proof fn lemma_best_match_upto_longest(s: Seq<char>, pairs: Seq<(Seq<char>, Seq<char>)>, k: nat)
    requires
        k <= pairs.len(),
    ensures
        best_match_upto(s, pairs, k) matches Some(i) ==> {
            &&& 0 <= i < k
            &&& is_match(pairs[i].0, s)
            &&& forall|j: int|
                0 <= j < k && #[trigger] is_match(pairs[j].0, s) ==> pairs[j].0.len()
                    <= pairs[i].0.len()
            &&& forall|j: int|
                0 <= j < k && #[trigger] is_match(pairs[j].0, s) && pairs[j].0.len()
                    == pairs[i].0.len() ==> !chars_before(pairs[j].1, pairs[i].1)
        },
        best_match_upto(s, pairs, k) is None <==> forall|j: int|
            0 <= j < k ==> !#[trigger] is_match(pairs[j].0, s),
    decreases k,
{
    if k > 0 {
        lemma_best_match_upto_longest(s, pairs, (k - 1) as nat);
        let r = best_match_upto(s, pairs, (k - 1) as nat);
        let i = k - 1;
        lemma_chars_before_irreflexive(pairs[i].1);
        if let Some(b) = best_match_upto(s, pairs, k) {
            if b == i && r is Some {
                let old = r->0;
                lemma_chars_before_irreflexive(pairs[old].1);
                assert forall|j: int|
                    0 <= j < k && #[trigger] is_match(pairs[j].0, s) && pairs[j].0.len()
                        == pairs[i].0.len() implies !chars_before(pairs[j].1, pairs[i].1) by {
                    if j < i && pairs[old].0.len() == pairs[i].0.len() && chars_before(
                        pairs[j].1,
                        pairs[i].1,
                    ) {
                        lemma_chars_before_transitive(pairs[j].1, pairs[i].1, pairs[old].1);
                    }
                }
            }
        }
    }
}

/// At each position the longest matching pattern wins: the applied pair's
/// pattern is a non-empty prefix of the text and no matching pattern is
/// longer; among entries with that pattern, none has a replacement before the
/// applied one in character order. No pair is applied exactly when no
/// non-empty pattern is a prefix of the text.
pub proof fn law_longest_pattern_wins(s: Seq<char>, pairs: Seq<(Seq<char>, Seq<char>)>)
    ensures
        best_match(s, pairs) matches Some(i) ==> {
            &&& 0 <= i < pairs.len()
            &&& is_match(pairs[i].0, s)
            &&& forall|j: int|
                0 <= j < pairs.len() && #[trigger] is_match(pairs[j].0, s) ==> pairs[j].0.len()
                    <= pairs[i].0.len()
            &&& forall|j: int|
                0 <= j < pairs.len() && #[trigger] is_match(pairs[j].0, s) && pairs[j].0.len()
                    == pairs[i].0.len() ==> !chars_before(pairs[j].1, pairs[i].1)
        },
        best_match(s, pairs) is None <==> forall|j: int|
            0 <= j < pairs.len() ==> !#[trigger] is_match(pairs[j].0, s),
{
    lemma_best_match_upto_longest(s, pairs, pairs.len());
}

/// The two maps hold the same (pattern, replacement) entries, however often
/// and in whatever order.
pub open spec fn same_entries(p1: Seq<(Seq<char>, Seq<char>)>, p2: Seq<(Seq<char>, Seq<char>)>) -> bool {
    forall|x: (Seq<char>, Seq<char>)| p1.contains(x) <==> p2.contains(x)
}

proof fn lemma_same_best_pair(
    s: Seq<char>,
    p1: Seq<(Seq<char>, Seq<char>)>,
    p2: Seq<(Seq<char>, Seq<char>)>,
)
    requires
        same_entries(p1, p2),
    ensures
        best_match(s, p1) is None <==> best_match(s, p2) is None,
        best_match(s, p1) is Some ==> p1[best_match(s, p1)->0] == p2[best_match(s, p2)->0],
{
    law_longest_pattern_wins(s, p1);
    law_longest_pattern_wins(s, p2);
    if best_match(s, p1) is Some {
        let i = best_match(s, p1)->0;
        assert(p1.contains(p1[i]));
        let m = choose|m: int| 0 <= m < p2.len() && p2[m] == p1[i];
        assert(is_match(p2[m].0, s));
        let k = best_match(s, p2)->0;
        assert(p2.contains(p2[k]));
        let j = choose|j: int| 0 <= j < p1.len() && p1[j] == p2[k];
        assert(is_match(p1[j].0, s));
        assert(p2[k].0.len() == p1[i].0.len());
        assert(p2[k].0 == s.take(p2[k].0.len() as int));
        assert(p2[k].0 == p1[i].0);
        assert(!chars_before(p1[j].1, p1[i].1));
        assert(!chars_before(p2[m].1, p2[k].1));
        lemma_chars_before_total(p1[i].1, p2[k].1);
    } else if best_match(s, p2) is Some {
        let k = best_match(s, p2)->0;
        assert(p2.contains(p2[k]));
        let j = choose|j: int| 0 <= j < p1.len() && p1[j] == p2[k];
        assert(is_match(p1[j].0, s));
    }
}

/// Maps with the same entries agree on holding an empty pattern.
pub proof fn lemma_same_entries_empty_pattern(
    p1: Seq<(Seq<char>, Seq<char>)>,
    p2: Seq<(Seq<char>, Seq<char>)>,
)
    requires
        same_entries(p1, p2),
    ensures
        has_empty_pattern(p1) == has_empty_pattern(p2),
{
    if has_empty_pattern(p1) {
        let i = choose|i: int| 0 <= i < p1.len() && #[trigger] p1[i].0.len() == 0;
        assert(p1.contains(p1[i]));
        let j = choose|j: int| 0 <= j < p2.len() && p2[j] == p1[i];
        assert(p2[j].0.len() == 0);
    }
    if has_empty_pattern(p2) {
        let i = choose|i: int| 0 <= i < p2.len() && #[trigger] p2[i].0.len() == 0;
        assert(p2.contains(p2[i]));
        let j = choose|j: int| 0 <= j < p1.len() && p1[j] == p2[i];
        assert(p1[j].0.len() == 0);
    }
}

/// Pattern order in the map does not matter: two maps that hold the same
/// (pattern, replacement) entries, in any order and with any repetition,
/// transliterate every text alike.
pub proof fn law_pattern_order_is_irrelevant(
    s: Seq<char>,
    p1: Seq<(Seq<char>, Seq<char>)>,
    p2: Seq<(Seq<char>, Seq<char>)>,
)
    requires
        same_entries(p1, p2),
    ensures
        transliterate(s, p1) == transliterate(s, p2),
    decreases s.len(),
{
    if s.len() > 0 {
        lemma_same_best_pair(s, p1, p2);
        law_longest_pattern_wins(s, p1);
        law_longest_pattern_wins(s, p2);
        if best_match(s, p1) is Some {
            let i = best_match(s, p1)->0;
            law_pattern_order_is_irrelevant(s.skip(p1[i].0.len() as int), p1, p2);
        } else {
            law_pattern_order_is_irrelevant(s.skip(1), p1, p2);
        }
    }
}

/// Transliteration step by step: the empty text stays empty; where no
/// pattern matches, the first character is copied and the rest
/// transliterated; where some entries match, an entry with the longest
/// matching pattern, and among those with the replacement first in character
/// order, is replaced and the rest after its pattern transliterated.
pub proof fn law_transliteration_steps(s: Seq<char>, pairs: Seq<(Seq<char>, Seq<char>)>)
    ensures
        transliterate(seq![], pairs) == Seq::<char>::empty(),
        s.len() > 0 && (forall|j: int| 0 <= j < pairs.len() ==> !#[trigger] is_match(pairs[j].0, s))
            ==> transliterate(s, pairs) == seq![s[0]] + transliterate(s.skip(1), pairs),
        forall|i: int|
            0 <= i < pairs.len() && #[trigger] is_match(pairs[i].0, s) && (forall|j: int|
                0 <= j < pairs.len() && #[trigger] is_match(pairs[j].0, s) ==> pairs[j].0.len()
                    <= pairs[i].0.len() && (pairs[j].0.len() == pairs[i].0.len() ==> !chars_before(
                    pairs[j].1,
                    pairs[i].1,
                ))) ==> transliterate(s, pairs) == pairs[i].1 + transliterate(
                s.skip(pairs[i].0.len() as int),
                pairs,
            ),
{
    law_longest_pattern_wins(s, pairs);
    assert forall|i: int|
        0 <= i < pairs.len() && #[trigger] is_match(pairs[i].0, s) && (forall|j: int|
            0 <= j < pairs.len() && #[trigger] is_match(pairs[j].0, s) ==> pairs[j].0.len()
                <= pairs[i].0.len() && (pairs[j].0.len() == pairs[i].0.len() ==> !chars_before(
                pairs[j].1,
                pairs[i].1,
            ))) implies transliterate(s, pairs) == pairs[i].1 + transliterate(
        s.skip(pairs[i].0.len() as int),
        pairs,
    ) by {
        let b = best_match(s, pairs)->0;
        assert(is_match(pairs[b].0, s));
        assert(pairs[b].0.len() == pairs[i].0.len());
        assert(pairs[b].0 == s.take(pairs[b].0.len() as int));
        assert(pairs[b].0 == pairs[i].0);
        lemma_chars_before_total(pairs[b].1, pairs[i].1);
    }
}

} // verus!
