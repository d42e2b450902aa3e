//! Suggestion helpers for "did you mean ...?" diagnostics.
//!
//! Used whenever a user-supplied name fails to resolve against a set of
//! registered names: the candidates are ranked by edit distance and the best
//! few are formatted into a help line to append to an error message.

use vstd::prelude::*;
use vstd::string::*;
use crate::strings::str_eq;

verus! {

/// Maximum number of suggestions surfaced for a single unresolved name.
pub const MAX_SUGGESTIONS: usize = 3;

/// Hard upper bound on the edit distance of a suggestion.
pub const ABSOLUTE_MAX_DISTANCE: usize = 3;

/// Cost of substituting byte `x` by byte `y`.
pub open spec fn subst_cost(x: u8, y: u8) -> nat {
    if x == y { 0 } else { 1 }
}

pub open spec fn min_nat(x: nat, y: nat) -> nat {
    if x <= y { x } else { y }
}

/// Edit distance between the first `i` bytes of `a` and the first `j` bytes
/// of `b` (insertions, deletions and substitutions each cost one).
pub open spec fn edit_distance(a: Seq<u8>, b: Seq<u8>, i: nat, j: nat) -> nat
    decreases i + j,
{
    if i == 0 {
        j
    } else if j == 0 {
        i
    } else {
        min_nat(
            min_nat(
                edit_distance(a, b, (i - 1) as nat, j) + 1,
                edit_distance(a, b, i, (j - 1) as nat) + 1,
            ),
            edit_distance(a, b, (i - 1) as nat, (j - 1) as nat) + subst_cost(a[i - 1], b[j - 1]),
        )
    }
}

/// The Levenshtein distance between two byte strings.
pub open spec fn levenshtein_distance(a: Seq<u8>, b: Seq<u8>) -> nat {
    edit_distance(a, b, a.len(), b.len())
}

pub open spec fn max_nat(x: nat, y: nat) -> nat {
    if x >= y { x } else { y }
}

/// The edit distance never exceeds the longer of the two prefixes.
pub proof fn lemma_edit_distance_upper(a: Seq<u8>, b: Seq<u8>, i: nat, j: nat)
    ensures
        edit_distance(a, b, i, j) <= max_nat(i, j),
    decreases i + j,
{
    if i != 0 && j != 0 {
        lemma_edit_distance_upper(a, b, (i - 1) as nat, (j - 1) as nat);
    }
}

/// The edit distance is at least the difference of the two lengths.
pub proof fn lemma_edit_distance_lower(a: Seq<u8>, b: Seq<u8>, i: nat, j: nat)
    ensures
        i <= j ==> j - i <= edit_distance(a, b, i, j),
        j <= i ==> i - j <= edit_distance(a, b, i, j),
    decreases i + j,
{
    if i != 0 && j != 0 {
        lemma_edit_distance_lower(a, b, (i - 1) as nat, j);
        lemma_edit_distance_lower(a, b, i, (j - 1) as nat);
        lemma_edit_distance_lower(a, b, (i - 1) as nat, (j - 1) as nat);
    }
}

proof fn lemma_edit_distance_swap(a: Seq<u8>, b: Seq<u8>, i: nat, j: nat)
    ensures
        edit_distance(a, b, i, j) == edit_distance(b, a, j, i),
    decreases i + j,
{
    if i != 0 && j != 0 {
        lemma_edit_distance_swap(a, b, (i - 1) as nat, j);
        lemma_edit_distance_swap(a, b, i, (j - 1) as nat);
        lemma_edit_distance_swap(a, b, (i - 1) as nat, (j - 1) as nat);
    }
}

proof fn lemma_edit_distance_same(a: Seq<u8>, i: nat)
    requires
        i <= a.len(),
    ensures
        edit_distance(a, a, i, i) == 0,
    decreases i,
{
    if i != 0 {
        lemma_edit_distance_same(a, (i - 1) as nat);
    }
}

/// Laws of the Levenshtein distance: a string is at distance zero from
/// itself, the distance is symmetric, and it lies between the difference and
/// the maximum of the two lengths.
pub proof fn lemma_levenshtein_laws(a: Seq<u8>, b: Seq<u8>)
    ensures
        levenshtein_distance(a, a) == 0,
        levenshtein_distance(a, b) == levenshtein_distance(b, a),
        levenshtein_distance(a, b) <= max_nat(a.len(), b.len()),
        a.len() <= b.len() ==> b.len() - a.len() <= levenshtein_distance(a, b),
        b.len() <= a.len() ==> a.len() - b.len() <= levenshtein_distance(a, b),
{
    lemma_edit_distance_same(a, a.len());
    lemma_edit_distance_swap(a, b, a.len(), b.len());
    lemma_edit_distance_upper(a, b, a.len(), b.len());
    lemma_edit_distance_lower(a, b, a.len(), b.len());
}

/// The threshold for an input of `input_len` bytes: `input_len / 3`, capped
/// at [`ABSOLUTE_MAX_DISTANCE`].
pub open spec fn spec_suggestion_threshold(input_len: nat) -> nat {
    min_nat(input_len / 3, ABSOLUTE_MAX_DISTANCE as nat)
}

/// Computes the distance threshold for a given input length. Shorter inputs
/// need stricter matching; longer inputs tolerate a little more drift.
pub fn suggestion_threshold(input_len: usize) -> (r: usize)
    ensures
        r == spec_suggestion_threshold(input_len as nat),
        r <= ABSOLUTE_MAX_DISTANCE,
{
    let t = input_len / 3;
    if t < ABSOLUTE_MAX_DISTANCE {
        t
    } else {
        ABSOLUTE_MAX_DISTANCE
    }
}

/// Levenshtein edit distance between the UTF-8 encodings of two strings.
///
/// Runs in O(m*n) time with O(n) memory using two rows of the table.
pub fn levenshtein(a: &str, b: &str) -> (d: usize)
    requires
        a.spec_bytes().len() < usize::MAX,
        b.spec_bytes().len() < usize::MAX,
    ensures
        d == levenshtein_distance(a.spec_bytes(), b.spec_bytes()),
{
    let a = a.as_bytes();
    let b = b.as_bytes();
    let ghost sa = a@;
    let ghost sb = b@;
    if a.len() == 0 {
        return b.len();
    }
    if b.len() == 0 {
        return a.len();
    }
    let blen = b.len();
    let mut prev: Vec<usize> = Vec::new();
    let mut cur: Vec<usize> = Vec::new();
    let mut j: usize = 0;
    while j <= blen
        invariant
            j <= blen + 1,
            blen == sb.len(),
            blen < usize::MAX,
            prev@.len() == j,
            cur@.len() == j,
            forall|k: int| 0 <= k < j ==> prev@[k] == edit_distance(sa, sb, 0, k as nat),
        decreases blen + 1 - j,
    {
        prev.push(j);
        cur.push(0);
        j = j + 1;
    }
    let mut i: usize = 0;
    while i < a.len()
        invariant
            a@ == sa,
            b@ == sb,
            blen == sb.len(),
            0 < sa.len() < usize::MAX,
            0 < blen < usize::MAX,
            i <= sa.len(),
            prev@.len() == blen + 1,
            cur@.len() == blen + 1,
            forall|k: int| 0 <= k <= blen ==> prev@[k] == edit_distance(sa, sb, i as nat, k as nat),
        decreases sa.len() - i,
    {
        cur.set(0, i + 1);
        let mut j: usize = 0;
        while j < blen
            invariant
                a@ == sa,
                b@ == sb,
                blen == sb.len(),
                0 < sa.len() < usize::MAX,
                0 < blen < usize::MAX,
                i < sa.len(),
                j <= blen,
                prev@.len() == blen + 1,
                cur@.len() == blen + 1,
                forall|k: int|
                    0 <= k <= blen ==> prev@[k] == edit_distance(sa, sb, i as nat, k as nat),
                forall|k: int|
                    0 <= k <= j ==> cur@[k] == edit_distance(sa, sb, (i + 1) as nat, k as nat),
            decreases blen - j,
        {
            proof {
                lemma_edit_distance_upper(sa, sb, i as nat, (j + 1) as nat);
                lemma_edit_distance_upper(sa, sb, (i + 1) as nat, j as nat);
                lemma_edit_distance_upper(sa, sb, i as nat, j as nat);
            }
            let cost: usize = if a[i] != b[j] { 1 } else { 0 };
            let del = prev[j + 1] + 1;
            let ins = cur[j] + 1;
            let sub = prev[j] + cost;
            let m1 = if del <= ins { del } else { ins };
            let m = if m1 <= sub { m1 } else { sub };
            cur.set(j + 1, m);
            j = j + 1;
        }
        std::mem::swap(&mut prev, &mut cur);
        i = i + 1;
    }
    prev[blen]
}

/// Whether a candidate is kept as a suggestion for `input`: it is not
/// empty, it is not the input itself, and it lies within the threshold.
pub open spec fn is_suggestion(input: Seq<u8>, candidate: Seq<u8>) -> bool {
    &&& candidate.len() > 0
    &&& candidate != input
    &&& levenshtein_distance(input, candidate) <= spec_suggestion_threshold(input.len())
}

/// The kept candidates at exactly distance `d` from the input, in the
/// order in which they were given.
pub open spec fn suggestions_at(input: Seq<u8>, candidates: Seq<&str>, d: nat) -> Seq<&str>
    decreases candidates.len(),
{
    if candidates.len() == 0 {
        Seq::empty()
    } else {
        let rest = suggestions_at(input, candidates.drop_last(), d);
        let c = candidates.last();
        if is_suggestion(input, c.spec_bytes()) && levenshtein_distance(input, c.spec_bytes()) == d {
            rest.push(c)
        } else {
            rest
        }
    }
}

/// All kept candidates at distance below `d`, closest first; candidates at
/// the same distance keep their given order (a stable sort by distance).
pub open spec fn suggestions_below(input: Seq<u8>, candidates: Seq<&str>, d: nat) -> Seq<&str>
    decreases d,
{
    if d == 0 {
        Seq::empty()
    } else {
        suggestions_below(input, candidates, (d - 1) as nat) + suggestions_at(
            input,
            candidates,
            (d - 1) as nat,
        )
    }
}

/// The ranked suggestions: the kept candidates stably sorted by distance,
/// cut to at most [`MAX_SUGGESTIONS`] entries.
pub open spec fn ranked_suggestions(input: Seq<u8>, candidates: Seq<&str>) -> Seq<&str> {
    let all = suggestions_below(
        input,
        candidates,
        spec_suggestion_threshold(input.len()) + 1,
    );
    if all.len() <= MAX_SUGGESTIONS {
        all
    } else {
        all.take(MAX_SUGGESTIONS as int)
    }
}

proof fn lemma_suggestions_at_len(input: Seq<u8>, candidates: Seq<&str>, d: nat)
    ensures
        suggestions_at(input, candidates, d).len() <= candidates.len(),
    decreases candidates.len(),
{
    if candidates.len() != 0 {
        lemma_suggestions_at_len(input, candidates.drop_last(), d);
    }
}

proof fn lemma_suggestions_at_empty(input: Seq<u8>, candidates: Seq<&str>, d: nat)
    ensures
        suggestions_at(input, candidates, d).len() == 0 <==> forall|k: int|
            0 <= k < candidates.len() ==> !(is_suggestion(input, (#[trigger] candidates[k]).spec_bytes())
                && levenshtein_distance(input, candidates[k].spec_bytes()) == d),
    decreases candidates.len(),
{
    if candidates.len() != 0 {
        let t = candidates.drop_last();
        lemma_suggestions_at_empty(input, t, d);
        assert forall|k: int| 0 <= k < t.len() implies t[k] == candidates[k] by {}
    }
}

proof fn lemma_suggestions_below_empty(input: Seq<u8>, candidates: Seq<&str>, d: nat)
    ensures
        suggestions_below(input, candidates, d).len() == 0 <==> forall|k: int|
            0 <= k < candidates.len() ==> !(is_suggestion(input, (#[trigger] candidates[k]).spec_bytes())
                && levenshtein_distance(input, candidates[k].spec_bytes()) < d),
    decreases d,
{
    if d > 0 {
        lemma_suggestions_below_empty(input, candidates, (d - 1) as nat);
        lemma_suggestions_at_empty(input, candidates, (d - 1) as nat);
    }
}

/// The help text is empty exactly when no candidate is a suggestion: none
/// that is non-empty, differs from the input and lies within the threshold
/// of edit distance.
pub proof fn lemma_suggest_empty_iff_none_within_threshold(input: Seq<u8>, candidates: Seq<&str>)
    ensures
        formatted_suggestions(ranked_suggestions(input, candidates)).len() == 0 <==> forall|k: int|
            0 <= k < candidates.len() ==> !is_suggestion(input, (#[trigger] candidates[k]).spec_bytes()),
{
    let t = spec_suggestion_threshold(input.len());
    lemma_suggestions_below_empty(input, candidates, t + 1);
    let r = ranked_suggestions(input, candidates);
    reveal_strlit("\nhelp: did you mean `");
    reveal_strlit("\nhelp: did you mean one of these?");
    if r.len() == 1 {
        assert(formatted_suggestions(r).len() > 0);
    } else if r.len() > 1 {
        assert(formatted_suggestions(r).len() > 0);
    }
}

/// Ranks `candidates` against `input` by edit distance and returns up to
/// [`MAX_SUGGESTIONS`] entries within the threshold, closest first; ties keep
/// the order of `candidates`.
pub fn rank_suggestions<'a>(input: &str, candidates: &[&'a str]) -> (r: Vec<&'a str>)
    requires
        input.spec_bytes().len() < usize::MAX,
        forall|k: int|
            0 <= k < candidates@.len() ==> (#[trigger] candidates@[k]).spec_bytes().len()
                < usize::MAX,
    ensures
        r@ == ranked_suggestions(input.spec_bytes(), candidates@),
        r@.len() <= MAX_SUGGESTIONS,
{
    let ghost ib = input.spec_bytes();
    let threshold = suggestion_threshold(input.len());
    // Distance of each candidate, or `None` when it is not a suggestion.
    let mut dists: Vec<Option<usize>> = Vec::new();
    let mut k: usize = 0;
    while k < candidates.len()
        invariant
            input.spec_bytes() == ib,
            ib.len() < usize::MAX,
            threshold == spec_suggestion_threshold(ib.len()),
            k <= candidates@.len(),
            dists@.len() == k,
            forall|m: int|
                0 <= m < candidates@.len() ==> (#[trigger] candidates@[m]).spec_bytes().len()
                    < usize::MAX,
            forall|m: int|
                0 <= m < k ==> match #[trigger] dists@[m] {
                    Some(d) => is_suggestion(ib, candidates@[m].spec_bytes()) && d
                        == levenshtein_distance(ib, candidates@[m].spec_bytes()),
                    None => !is_suggestion(ib, candidates@[m].spec_bytes()),
                },
        decreases candidates@.len() - k,
    {
        let c = candidates[k];
        let entry = if c.len() == 0 || str_eq(c, input) {
            None
        } else {
            let d = levenshtein(input, c);
            if d <= threshold {
                Some(d)
            } else {
                None
            }
        };
        dists.push(entry);
        k = k + 1;
    }
    let mut ranked: Vec<&'a str> = Vec::new();
    let mut d: usize = 0;
    while d <= threshold
        invariant
            threshold <= ABSOLUTE_MAX_DISTANCE,
            threshold == spec_suggestion_threshold(ib.len()),
            d <= threshold + 1,
            dists@.len() == candidates@.len(),
            forall|m: int|
                0 <= m < candidates@.len() ==> match #[trigger] dists@[m] {
                    Some(e) => is_suggestion(ib, candidates@[m].spec_bytes()) && e
                        == levenshtein_distance(ib, candidates@[m].spec_bytes()),
                    None => !is_suggestion(ib, candidates@[m].spec_bytes()),
                },
            ranked@ == suggestions_below(ib, candidates@, d as nat),
        decreases threshold + 1 - d,
    {
        let ghost before = ranked@;
        let mut m: usize = 0;
        while m < candidates.len()
            invariant
                d <= threshold,
                threshold == spec_suggestion_threshold(ib.len()),
                m <= candidates@.len(),
                dists@.len() == candidates@.len(),
                forall|q: int|
                    0 <= q < candidates@.len() ==> match #[trigger] dists@[q] {
                        Some(e) => is_suggestion(ib, candidates@[q].spec_bytes()) && e
                            == levenshtein_distance(ib, candidates@[q].spec_bytes()),
                        None => !is_suggestion(ib, candidates@[q].spec_bytes()),
                    },
                ranked@ == before + suggestions_at(ib, candidates@.take(m as int), d as nat),
            decreases candidates@.len() - m,
        {
            proof {
                assert(candidates@.take(m as int + 1).drop_last() =~= candidates@.take(m as int));
                assert(candidates@.take(m as int + 1).last() == candidates@[m as int]);
            }
            match dists[m] {
                Some(e) => {
                    if e == d {
                        ranked.push(candidates[m]);
                    }
                },
                None => {},
            }
            m = m + 1;
        }
        proof {
            assert(candidates@.take(candidates@.len() as int) =~= candidates@);
        }
        d = d + 1;
    }
    if ranked.len() > MAX_SUGGESTIONS {
        ranked.truncate(MAX_SUGGESTIONS);
    }
    ranked
}

/// The help text for a ranked list of suggestions.
pub open spec fn suggestion_lines(suggestions: Seq<&str>) -> Seq<char>
    decreases suggestions.len(),
{
    if suggestions.len() == 0 {
        Seq::empty()
    } else {
        suggestion_lines(suggestions.drop_last()) + "\n  - "@ + suggestions.last()@
    }
}

/// The help text appended to an error message for the given suggestions:
/// nothing for none, a single question for one, a list for several.
pub open spec fn formatted_suggestions(suggestions: Seq<&str>) -> Seq<char> {
    if suggestions.len() == 0 {
        Seq::empty()
    } else if suggestions.len() == 1 {
        "\nhelp: did you mean `"@ + suggestions[0]@ + "`?"@
    } else {
        "\nhelp: did you mean one of these?"@ + suggestion_lines(suggestions)
    }
}

/// Formats a ranked list of suggestions as a multi-line help string to
/// append to an error message; empty when there are no suggestions.
pub fn format_suggestions(suggestions: &[&str]) -> (s: String)
    ensures
        s@ == formatted_suggestions(suggestions@),
{
    if suggestions.len() == 0 {
        String::new()
    } else if suggestions.len() == 1 {
        let mut s = String::from_str("\nhelp: did you mean `");
        s.append(suggestions[0]);
        s.append("`?");
        s
    } else {
        let mut s = String::from_str("\nhelp: did you mean one of these?");
        let mut k: usize = 0;
        while k < suggestions.len()
            invariant
                k <= suggestions@.len(),
                s@ == "\nhelp: did you mean one of these?"@ + suggestion_lines(
                    suggestions@.take(k as int),
                ),
            decreases suggestions@.len() - k,
        {
            proof {
                assert(suggestions@.take(k as int + 1).drop_last() =~= suggestions@.take(
                    k as int,
                ));
            }
            s.append("\n  - ");
            s.append(suggestions[k]);
            k = k + 1;
        }
        proof {
            assert(suggestions@.take(suggestions@.len() as int) =~= suggestions@);
        }
        s
    }
}

/// Ranks the candidates against an input and formats the result in one
/// call; empty when no candidate lies within the threshold.
pub fn suggest(input: &str, candidates: &[&str]) -> (s: String)
    requires
        input.spec_bytes().len() < usize::MAX,
        forall|k: int|
            0 <= k < candidates@.len() ==> (#[trigger] candidates@[k]).spec_bytes().len()
                < usize::MAX,
    ensures
        s@ == formatted_suggestions(ranked_suggestions(input.spec_bytes(), candidates@)),
{
    let ranked = rank_suggestions(input, candidates);
    format_suggestions(ranked.as_slice())
}

} // verus!
