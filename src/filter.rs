use fuzzy_matcher::skim::SkimMatcherV2;
use fuzzy_matcher::FuzzyMatcher;
use vstd::prelude::*;

verus! {

/// A character with ASCII upper-case letters folded to lower case.
pub open spec fn fold_ascii(c: char) -> u32 {
    let v = c as u32;
    if 65 <= v && v <= 90 {
        (v + 32) as u32
    } else {
        v
    }
}

/// The characters of `pattern` occur in order, not necessarily next to each
/// other, in `choice`, compared with ASCII case folded.
pub open spec fn is_fuzzy_match(choice: Seq<char>, pattern: Seq<char>) -> bool
    decreases choice.len(),
{
    if pattern.len() == 0 {
        true
    } else if choice.len() == 0 {
        false
    } else if fold_ascii(choice[0]) == fold_ascii(pattern[0]) {
        is_fuzzy_match(choice.drop_first(), pattern.drop_first())
    } else {
        is_fuzzy_match(choice.drop_first(), pattern)
    }
}

/// `prefix` is a literal, case-sensitive prefix of `s`.
pub open spec fn is_prefix_of(prefix: Seq<char>, s: Seq<char>) -> bool {
    prefix.len() <= s.len() && s.subrange(0, prefix.len() as int) == prefix
}

/// The candidates that match `query` and whose prefix status is `prefixed`.
pub open spec fn in_group(query: Seq<char>, prefixed: bool) -> spec_fn(Seq<char>) -> bool {
    |s: Seq<char>| is_fuzzy_match(s, query) && is_prefix_of(query, s) == prefixed
}

/// The filtered list: the matching candidates that start with `query`, then
/// the other matching candidates, each group in the candidates' order.
pub open spec fn spec_filter(candidates: Seq<Seq<char>>, query: Seq<char>) -> Seq<Seq<char>> {
    candidates.filter(in_group(query, true)) + candidates.filter(in_group(query, false))
}

/// The character sequences of a list of strings.
pub open spec fn strings_view(v: Seq<String>) -> Seq<Seq<char>> {
    v.map_values(|s: String| s@)
}

/// Relies on fuzzy_matcher's `SkimMatcherV2` with case ignored: its
/// `fuzzy_indices` returns `Some` exactly when the greedy left-to-right scan
/// (`cheap_matches`, comparing with `eq_ignore_ascii_case`) finds every
/// character of the pattern in the choice; an empty pattern always matches.
#[verifier::external_body]
fn fuzzy_matches(choice: &str, pattern: &str) -> (r: bool)
    ensures
        r == is_fuzzy_match(choice@, pattern@),
{
    SkimMatcherV2::default().ignore_case().fuzzy_indices(choice, pattern).is_some()
}

/// Whether `s` starts with `prefix`, comparing characters exactly.
pub fn starts_with(s: &str, prefix: &str) -> (r: bool)
    ensures
        r == is_prefix_of(prefix@, s@),
{
    let n = prefix.unicode_len();
    let m = s.unicode_len();
    if n > m {
        return false;
    }
    let mut i: usize = 0;
    while i < n
        invariant
            i <= n <= m,
            n == prefix@.len(),
            m == s@.len(),
            forall|j: int| 0 <= j < i ==> s@[j] == prefix@[j],
        decreases n - i,
    {
        if s.get_char(i) != prefix.get_char(i) {
            proof {
                assert(s@.subrange(0, n as int)[i as int] != prefix@[i as int]);
            }
            return false;
        }
        i += 1;
    }
    proof {
        assert(s@.subrange(0, n as int) =~= prefix@);
    }
    true
}

/// Appends to `out`, in order, clones of the candidates that fuzzily match
/// `query` and whose prefix status is `prefixed`.
fn collect_group(query: &String, candidates: &Vec<String>, prefixed: bool, out: &mut Vec<String>)
    ensures
        strings_view(final(out)@) == strings_view(old(out)@) + strings_view(candidates@).filter(
            in_group(query@, prefixed),
        ),
{
    let ghost start = strings_view(out@);
    let ghost all = strings_view(candidates@);
    let mut i: usize = 0;
    proof {
        assert(all.take(0) =~= Seq::<Seq<char>>::empty());
        reveal(Seq::filter);
        assert(start + all.take(0).filter(in_group(query@, prefixed)) =~= start);
    }
    while i < candidates.len()
        invariant
            i <= candidates@.len(),
            all == strings_view(candidates@),
            strings_view(out@) == start + all.take(i as int).filter(in_group(query@, prefixed)),
        decreases candidates.len() - i,
    {
        let c = &candidates[i];
        let keep = fuzzy_matches(c.as_str(), query.as_str()) && starts_with(c.as_str(), query.as_str())
            == prefixed;
        proof {
            assert(all.take(i + 1) =~= all.take(i as int).push(c@));
            all.take(i as int).lemma_filter_push(c@, in_group(query@, prefixed));
        }
        if keep {
            let ghost before = out@;
            out.push(c.clone());
            proof {
                assert(strings_view(out@) =~= strings_view(before).push(c@));
            }
        }
        i += 1;
    }
    proof {
        assert(all.take(candidates@.len() as int) =~= all);
    }
}

/// Filters `candidates` by `input`: the fuzzy matches that start with `input`
/// come first, then the other fuzzy matches, each group in the order of
/// `candidates`.
pub fn filter_executables(input: &String, candidates: &Vec<String>) -> (r: Vec<String>)
    ensures
        strings_view(r@) == spec_filter(strings_view(candidates@), input@),
{
    let mut out: Vec<String> = Vec::new();
    proof {
        assert(strings_view(out@) =~= Seq::<Seq<char>>::empty());
    }
    collect_group(input, candidates, true, &mut out);
    collect_group(input, candidates, false, &mut out);
    proof {
        assert(Seq::<Seq<char>>::empty() + strings_view(candidates@).filter(in_group(input@, true))
            =~= strings_view(candidates@).filter(in_group(input@, true)));
    }
    out
}

/// Filtering keeps every element that satisfies `pred`.
proof fn lemma_filter_keeps_all(s: Seq<Seq<char>>, pred: spec_fn(Seq<char>) -> bool)
    requires
        forall|i: int| 0 <= i < s.len() ==> pred(s[i]),
    ensures
        s.filter(pred) == s,
    decreases s.len(),
{
    reveal(Seq::filter);
    if s.len() > 0 {
        lemma_filter_keeps_all(s.drop_last(), pred);
        assert(s.drop_last().push(s.last()) =~= s);
    }
}

/// Filtering drops every element that fails `pred`.
proof fn lemma_filter_drops_all(s: Seq<Seq<char>>, pred: spec_fn(Seq<char>) -> bool)
    requires
        forall|i: int| 0 <= i < s.len() ==> !pred(s[i]),
    ensures
        s.filter(pred) == Seq::<Seq<char>>::empty(),
{
    s.lemma_all_neg_filter_empty(pred);
    assert(s.filter(pred) =~= Seq::<Seq<char>>::empty());
}

/// Every candidate matches the empty query, so an empty query leaves the
/// candidates as they are.
pub proof fn lemma_filter_empty_query(candidates: Seq<Seq<char>>)
    ensures
        spec_filter(candidates, Seq::<char>::empty()) == candidates,
{
    let q = Seq::<char>::empty();
    assert forall|i: int| 0 <= i < candidates.len() implies #[trigger] in_group(q, true)(
        candidates[i],
    ) by {
        assert(candidates[i].subrange(0, 0) =~= q);
    }
    lemma_filter_keeps_all(candidates, in_group(q, true));
    lemma_filter_drops_all(candidates, in_group(q, false));
    assert(candidates + Seq::<Seq<char>>::empty() =~= candidates);
}

/// Every element of the filtered list is a candidate that fuzzily matches the
/// query, and every candidate that matches is in the filtered list.
pub proof fn lemma_filter_sound_and_complete(candidates: Seq<Seq<char>>, query: Seq<char>)
    ensures
        forall|i: int|
            0 <= i < spec_filter(candidates, query).len() ==> is_fuzzy_match(
                #[trigger] spec_filter(candidates, query)[i],
                query,
            ) && candidates.contains(spec_filter(candidates, query)[i]),
        forall|s: Seq<char>|
            #[trigger] candidates.contains(s) ==> (spec_filter(candidates, query).contains(s)
                <==> is_fuzzy_match(s, query)),
{
    let a = candidates.filter(in_group(query, true));
    let b = candidates.filter(in_group(query, false));
    broadcast use vstd::seq_lib::group_filter_ensures;

    let r = spec_filter(candidates, query);
    assert forall|i: int| 0 <= i < r.len() implies is_fuzzy_match(#[trigger] r[i], query)
        && candidates.contains(r[i]) by {
        if i < a.len() {
            assert(r[i] == a[i]);
            assert(in_group(query, true)(a[i]));
            candidates.lemma_filter_contains_rev(in_group(query, true), a[i]);
        } else {
            assert(r[i] == b[i - a.len()]);
            assert(in_group(query, false)(b[i - a.len()]));
            candidates.lemma_filter_contains_rev(in_group(query, false), b[i - a.len()]);
        }
    }
    assert forall|s: Seq<char>| #[trigger] candidates.contains(s) implies (r.contains(s)
        <==> is_fuzzy_match(s, query)) by {
        if is_fuzzy_match(s, query) {
            let k = choose|k: int| 0 <= k < candidates.len() && candidates[k] == s;
            if is_prefix_of(query, s) {
                assert(in_group(query, true)(candidates[k]));
                assert(a.contains(candidates[k]));
                let j = choose|j: int| 0 <= j < a.len() && a[j] == s;
                assert(r[j] == s);
            } else {
                assert(in_group(query, false)(candidates[k]));
                assert(b.contains(candidates[k]));
                let j = choose|j: int| 0 <= j < b.len() && b[j] == s;
                assert(r[a.len() + j] == s);
            }
        }
        if r.contains(s) {
            let j = choose|j: int| 0 <= j < r.len() && r[j] == s;
            assert(is_fuzzy_match(r[j], query));
        }
    }
}

/// Within each group, those that start with the query and those that do not,
/// the filtered list keeps the candidates' relative order: each group of the
/// result is exactly the matching candidates of that group, in their order.
pub proof fn lemma_filter_stable(candidates: Seq<Seq<char>>, query: Seq<char>)
    ensures
        spec_filter(candidates, query).filter(|s: Seq<char>| is_prefix_of(query, s))
            == candidates.filter(in_group(query, true)),
        spec_filter(candidates, query).filter(|s: Seq<char>| !is_prefix_of(query, s))
            == candidates.filter(in_group(query, false)),
{
    let a = candidates.filter(in_group(query, true));
    let b = candidates.filter(in_group(query, false));
    let pre = |s: Seq<char>| is_prefix_of(query, s);
    let non = |s: Seq<char>| !is_prefix_of(query, s);
    broadcast use vstd::seq_lib::group_filter_ensures;

    Seq::filter_distributes_over_add(a, b, pre);
    Seq::filter_distributes_over_add(a, b, non);
    assert forall|i: int| 0 <= i < a.len() implies pre(a[i]) && !non(a[i]) by {
        assert(in_group(query, true)(a[i]));
    }
    assert forall|i: int| 0 <= i < b.len() implies non(b[i]) && !pre(b[i]) by {
        assert(in_group(query, false)(b[i]));
    }
    lemma_filter_keeps_all(a, pre);
    lemma_filter_drops_all(b, pre);
    lemma_filter_keeps_all(b, non);
    lemma_filter_drops_all(a, non);
    assert(a + Seq::<Seq<char>>::empty() =~= a);
    assert(Seq::<Seq<char>>::empty() + b =~= b);
}

/// Filtering an already filtered list by the same query changes nothing.
pub proof fn lemma_filter_idempotent(candidates: Seq<Seq<char>>, query: Seq<char>)
    ensures
        spec_filter(spec_filter(candidates, query), query) == spec_filter(candidates, query),
{
    let a = candidates.filter(in_group(query, true));
    let b = candidates.filter(in_group(query, false));
    let g1 = in_group(query, true);
    let g2 = in_group(query, false);
    broadcast use vstd::seq_lib::group_filter_ensures;

    Seq::filter_distributes_over_add(a, b, g1);
    Seq::filter_distributes_over_add(a, b, g2);
    assert forall|i: int| 0 <= i < a.len() implies g1(a[i]) && !g2(a[i]) by {
        assert(g1(a[i]));
    }
    assert forall|i: int| 0 <= i < b.len() implies g2(b[i]) && !g1(b[i]) by {
        assert(g2(b[i]));
    }
    lemma_filter_keeps_all(a, g1);
    lemma_filter_drops_all(b, g1);
    lemma_filter_keeps_all(b, g2);
    lemma_filter_drops_all(a, g2);
    assert(a + Seq::<Seq<char>>::empty() =~= a);
    assert(Seq::<Seq<char>>::empty() + b =~= b);
}

} // verus!
