use crate::filter::strings_view;
use vstd::prelude::*;

verus! {

/// What `str::to_lowercase` makes of a string.
pub uninterp spec fn lower_of(s: Seq<char>) -> Seq<char>;

/// Relies on `str::to_lowercase`: the result depends on the characters alone.
#[verifier::external_body]
fn lowercase(s: &str) -> (r: String)
    ensures
        r@ == lower_of(s@),
{
    s.to_lowercase()
}

/// Strict lexicographic order by code point, the order of `str`'s `Ord`.
pub open spec fn lex_lt(a: Seq<char>, b: Seq<char>) -> bool
    decreases a.len(),
{
    if a.len() == 0 {
        b.len() > 0
    } else if b.len() == 0 {
        false
    } else if a[0] != b[0] {
        a[0] < b[0]
    } else {
        lex_lt(a.drop_first(), b.drop_first())
    }
}

pub open spec fn lex_le(a: Seq<char>, b: Seq<char>) -> bool {
    lex_lt(a, b) || a == b
}

/// Candidates ordered by their lower-case forms.
pub open spec fn sorted_ci(s: Seq<Seq<char>>) -> bool {
    forall|i: int, j: int| 0 <= i < j < s.len() ==> lex_le(lower_of(s[i]), lower_of(s[j]))
}

/// A candidate list: distinct strings, ordered by lower-case form.
#[verifier::opaque]
pub open spec fn is_candidate_list(s: Seq<Seq<char>>) -> bool {
    s.no_duplicates() && sorted_ci(s)
}

/// Any two sequences are ordered one way or the other.
proof fn lemma_lex_total(a: Seq<char>, b: Seq<char>)
    ensures
        lex_lt(a, b) || a == b || lex_lt(b, a),
    decreases a.len(),
{
    if a.len() > 0 && b.len() > 0 && a[0] == b[0] {
        lemma_lex_total(a.drop_first(), b.drop_first());
        if a.drop_first() == b.drop_first() {
            assert(a =~= seq![a[0]] + a.drop_first());
            assert(b =~= seq![b[0]] + b.drop_first());
        }
    } else if a.len() == 0 && b.len() == 0 {
        assert(a =~= b);
    }
}

proof fn lemma_lex_lt_irreflexive(a: Seq<char>)
    ensures
        !lex_lt(a, a),
    decreases a.len(),
{
    if a.len() > 0 {
        lemma_lex_lt_irreflexive(a.drop_first());
    }
}

proof fn lemma_lex_lt_trans(a: Seq<char>, b: Seq<char>, c: Seq<char>)
    requires
        lex_lt(a, b),
        lex_lt(b, c),
    ensures
        lex_lt(a, c),
    decreases a.len(),
{
    if a.len() > 0 && b.len() > 0 && c.len() > 0 && a[0] == b[0] && b[0] == c[0] {
        lemma_lex_lt_trans(a.drop_first(), b.drop_first(), c.drop_first());
    }
}

proof fn lemma_lex_le_trans(a: Seq<char>, b: Seq<char>, c: Seq<char>)
    requires
        lex_le(a, b),
        lex_le(b, c),
    ensures
        lex_le(a, c),
{
    if lex_lt(a, b) && lex_lt(b, c) {
        lemma_lex_lt_trans(a, b, c);
    }
}

/// Whether `a` comes strictly before `b` by code point.
fn lex_less(a: &str, b: &str) -> (r: bool)
    ensures
        r == lex_lt(a@, b@),
{
    let n = a.unicode_len();
    let m = b.unicode_len();
    let mut i: usize = 0;
    proof {
        assert(a@.skip(0) =~= a@);
        assert(b@.skip(0) =~= b@);
    }
    while i < n && i < m
        invariant
            i <= n,
            i <= m,
            n == a@.len(),
            m == b@.len(),
            lex_lt(a@, b@) == lex_lt(a@.skip(i as int), b@.skip(i as int)),
        decreases n - i,
    {
        let ca = a.get_char(i);
        let cb = b.get_char(i);
        if ca != cb {
            return ca < cb;
        }
        proof {
            assert(a@.skip(i as int).drop_first() =~= a@.skip(i + 1));
            assert(b@.skip(i as int).drop_first() =~= b@.skip(i + 1));
        }
        i += 1;
    }
    i < m
}

/// Whether a string with the characters of `name` is in `v`.
fn contains_string(v: &Vec<String>, name: &String) -> (r: bool)
    ensures
        r == strings_view(v@).contains(name@),
{
    let mut k: usize = 0;
    while k < v.len()
        invariant
            k <= v@.len(),
            forall|j: int| 0 <= j < k ==> v@[j]@ != name@,
        decreases v.len() - k,
    {
        if v[k] == *name {
            proof {
                assert(strings_view(v@)[k as int] == name@);
            }
            return true;
        }
        k += 1;
    }
    proof {
        if strings_view(v@).contains(name@) {
            let j = choose|j: int| 0 <= j < v@.len() && strings_view(v@)[j] == name@;
            assert(v@[j]@ == name@);
        }
    }
    false
}

proof fn lemma_insert_to_set(s: Seq<Seq<char>>, p: int, x: Seq<char>)
    requires
        0 <= p <= s.len(),
    ensures
        s.insert(p, x).to_set() == s.to_set().insert(x),
{
    s.insert_ensures(p, x);
    let t = s.insert(p, x);
    assert forall|y: Seq<char>| t.to_set().contains(y) <==> s.to_set().insert(x).contains(y) by {
        if t.contains(y) {
            let k = choose|k: int| 0 <= k < t.len() && t[k] == y;
            if k < p {
                assert(s[k] == y);
            } else if k > p {
                assert(s[k - 1] == y);
            }
        }
        if s.contains(y) {
            let k = choose|k: int| 0 <= k < s.len() && s[k] == y;
            if k < p {
                assert(t[k] == y);
            } else {
                assert(t[k + 1] == y);
            }
        }
        if y == x {
            assert(t[p] == x);
        }
    }
    assert(t.to_set() =~= s.to_set().insert(x));
}

/// The index of the first occurrence of `x` in `s` (`s.len()` if none).
pub open spec fn first_index(s: Seq<Seq<char>>, x: Seq<char>) -> int
    decreases s.len(),
{
    if s.len() == 0 {
        0
    } else if s[0] == x {
        0
    } else {
        1 + first_index(s.drop_first(), x)
    }
}

/// Strings with equal lower-case forms stand in the order of their first
/// occurrences in `names`.
pub open spec fn ties_in_order(s: Seq<Seq<char>>, names: Seq<Seq<char>>) -> bool {
    forall|a: int, b: int|
        0 <= a < b < s.len() && lower_of(s[a]) == lower_of(s[b]) ==> first_index(names, s[a])
            < first_index(names, s[b])
}

proof fn lemma_first_index_push(s: Seq<Seq<char>>, x: Seq<char>, y: Seq<char>)
    ensures
        s.contains(x) ==> first_index(s.push(y), x) == first_index(s, x) && first_index(s, x)
            < s.len(),
        !s.contains(x) ==> first_index(s.push(x), x) == s.len(),
    decreases s.len(),
{
    if s.len() > 0 {
        assert(s.push(y).drop_first() =~= s.drop_first().push(y));
        assert(s.push(x).drop_first() =~= s.drop_first().push(x));
        lemma_first_index_push(s.drop_first(), x, y);
        if s[0] != x {
            if s.contains(x) {
                let k = choose|k: int| 0 <= k < s.len() && s[k] == x;
                assert(s.drop_first()[k - 1] == x);
            } else {
                assert forall|k: int| 0 <= k < s.drop_first().len() implies s.drop_first()[k]
                    != x by {
                    assert(s[k + 1] == s.drop_first()[k]);
                }
            }
        }
    } else {
        assert(s.push(x)[0] == x);
    }
}

/// The candidate list: each distinct string of `names` once, ordered by its
/// lower-case form; strings whose lower-case forms are equal keep the order
/// in which they first occur in `names`.
pub fn sort_candidates(names: &Vec<String>) -> (r: Vec<String>)
    ensures
        strings_view(r@).to_set() == strings_view(names@).to_set(),
        strings_view(r@).no_duplicates(),
        sorted_ci(strings_view(r@)),
        ties_in_order(strings_view(r@), strings_view(names@)),
        is_candidate_list(strings_view(r@)),
{
    let mut out: Vec<String> = Vec::new();
    let mut keys: Vec<String> = Vec::new();
    let mut i: usize = 0;
    proof {
        assert(strings_view(names@).take(0) =~= Seq::<Seq<char>>::empty());
        assert(strings_view(out@) =~= Seq::<Seq<char>>::empty());
    }
    while i < names.len()
        invariant
            i <= names@.len(),
            keys@.len() == out@.len(),
            forall|k: int| 0 <= k < keys@.len() ==> #[trigger] keys@[k]@ == lower_of(out@[k]@),
            strings_view(out@).to_set() == strings_view(names@).take(i as int).to_set(),
            strings_view(out@).no_duplicates(),
            sorted_ci(strings_view(out@)),
            ties_in_order(strings_view(out@), strings_view(names@).take(i as int)),
        decreases names.len() - i,
    {
        let name = &names[i];
        let ghost before = strings_view(out@);
        proof {
            assert(strings_view(names@).take(i + 1) =~= strings_view(names@).take(i as int).push(
                name@,
            ));
            strings_view(names@).take(i as int).lemma_push_to_set_commute(name@);
        }
        if !contains_string(&out, name) {
            let key = lowercase(name.as_str());
            let mut p: usize = 0;
            while p < keys.len() && !lex_less(key.as_str(), keys[p].as_str())
                invariant
                    p <= keys@.len(),
                    forall|k: int| 0 <= k < p ==> !lex_lt(key@, #[trigger] keys@[k]@),
                decreases keys.len() - p,
            {
                p += 1;
            }
            let ghost old_keys = keys@;
            out.insert(p, name.clone());
            keys.insert(p, key);
            proof {
                let now = strings_view(out@);
                assert(now =~= before.insert(p as int, name@));
                before.insert_ensures(p as int, name@);
                lemma_insert_to_set(before, p as int, name@);
                old_keys.insert_ensures(p as int, key);
                assert forall|k: int| 0 <= k < keys@.len() implies #[trigger] keys@[k]@ == lower_of(
                    out@[k]@,
                ) by {
                    if k > p {
                        assert(keys@[k] == old_keys[k - 1]);
                    }
                }
                assert forall|a: int, b: int|
                    0 <= a < now.len() && 0 <= b < now.len() && a != b implies now[a]
                    != now[b] by {
                    if a != p && b != p {
                        let a0 = if a < p { a } else { a - 1 };
                        let b0 = if b < p { b } else { b - 1 };
                        assert(now[a] == before[a0]);
                        assert(now[b] == before[b0]);
                    } else if a == p {
                        let b0 = if b < p { b } else { b - 1 };
                        assert(now[b] == before[b0]);
                    } else {
                        let a0 = if a < p { a } else { a - 1 };
                        assert(now[a] == before[a0]);
                    }
                }
                assert forall|a: int, b: int| 0 <= a < b < now.len() implies lex_le(
                    lower_of(now[a]),
                    lower_of(now[b]),
                ) by {
                    let ka = lower_of(now[a]);
                    let kb = lower_of(now[b]);
                    assert(ka == keys@[a]@);
                    assert(kb == keys@[b]@);
                    if a < p && b < p {
                        assert(lex_le(lower_of(before[a]), lower_of(before[b])));
                    } else if a < p && b == p {
                        assert(!lex_lt(key@, old_keys[a]@));
                        lemma_lex_total(key@, old_keys[a]@);
                    } else if a < p {
                        assert(lex_le(lower_of(before[a]), lower_of(before[b - 1])));
                    } else if a == p {
                        assert(lex_lt(key@, old_keys[p as int]@));
                        if b - 1 > p {
                            assert(lex_le(lower_of(before[p as int]), lower_of(before[b - 1])));
                        }
                        lemma_lex_le_trans(key@, old_keys[p as int]@, old_keys[b - 1]@);
                    } else {
                        assert(lex_le(lower_of(before[a - 1]), lower_of(before[b - 1])));
                    }
                }
                let t = strings_view(names@).take(i as int);
                assert(!t.contains(name@)) by {
                    assert(!before.to_set().contains(name@));
                }
                lemma_first_index_push(t, name@, name@);
                assert forall|a: int, b: int|
                    0 <= a < b < now.len() && lower_of(now[a]) == lower_of(now[b]) implies first_index(
                    t.push(name@),
                    now[a],
                ) < first_index(t.push(name@), now[b]) by {
                    if a != p && b != p {
                        let a0 = if a < p { a } else { a - 1 };
                        let b0 = if b < p { b } else { b - 1 };
                        assert(now[a] == before[a0]);
                        assert(now[b] == before[b0]);
                        assert(before.to_set().contains(before[a0]));
                        assert(before.to_set().contains(before[b0]));
                        lemma_first_index_push(t, before[a0], name@);
                        lemma_first_index_push(t, before[b0], name@);
                    } else if a == p {
                        let kb = old_keys[b - 1]@;
                        assert(now[b] == before[b - 1]);
                        assert(kb == lower_of(now[b]));
                        assert(lex_lt(key@, old_keys[p as int]@));
                        if b - 1 > p {
                            assert(lex_le(lower_of(before[p as int]), lower_of(before[b - 1])));
                            if old_keys[p as int]@ != kb {
                                lemma_lex_lt_trans(key@, old_keys[p as int]@, kb);
                            }
                        }
                        lemma_lex_lt_irreflexive(key@);
                    } else {
                        assert(now[a] == before[a]);
                        assert(before.to_set().contains(before[a]));
                        lemma_first_index_push(t, before[a], name@);
                    }
                }
            }
        } else {
            proof {
                assert(strings_view(out@).to_set().insert(name@) =~= strings_view(out@).to_set());
                let t = strings_view(names@).take(i as int);
                let cur = strings_view(out@);
                assert forall|a: int, b: int|
                    0 <= a < b < cur.len() && lower_of(cur[a]) == lower_of(cur[b]) implies first_index(
                    t.push(name@),
                    cur[a],
                ) < first_index(t.push(name@), cur[b]) by {
                    assert(cur.to_set().contains(cur[a]));
                    assert(cur.to_set().contains(cur[b]));
                    lemma_first_index_push(t, cur[a], name@);
                    lemma_first_index_push(t, cur[b], name@);
                }
            }
        }
        i += 1;
    }
    proof {
        assert(strings_view(names@).take(names@.len() as int) =~= strings_view(names@));
        reveal(is_candidate_list);
    }
    out
}

} // verus!
