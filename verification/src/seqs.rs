//! Queries over a table seen as a sequence of rows: the first row that
//! matches, the rows that are kept, a change applied to the rows that match.

use vstd::prelude::*;

verus! {

/// `i` is the position of the first element of `s` that satisfies `p`.
pub open spec fn is_first<T>(s: Seq<T>, p: spec_fn(T) -> bool, i: int) -> bool {
    &&& 0 <= i < s.len()
    &&& p(s[i])
    &&& forall|j: int| 0 <= j < i ==> !p(#[trigger] s[j])
}

/// No element of `s` satisfies `p`.
pub open spec fn none_match<T>(s: Seq<T>, p: spec_fn(T) -> bool) -> bool {
    forall|j: int| 0 <= j < s.len() ==> !p(#[trigger] s[j])
}

/// The position of the first element that satisfies `p`, if there is one.
pub open spec fn first_index<T>(s: Seq<T>, p: spec_fn(T) -> bool) -> Option<int> {
    if exists|i: int| is_first(s, p, i) {
        Some(choose|i: int| is_first(s, p, i))
    } else {
        None
    }
}

/// The first element that satisfies `p`, if there is one.
pub open spec fn first<T>(s: Seq<T>, p: spec_fn(T) -> bool) -> Option<T> {
    match first_index(s, p) {
        Some(i) => Some(s[i]),
        None => None,
    }
}

/// Whether some element satisfies `p`.
pub open spec fn any<T>(s: Seq<T>, p: spec_fn(T) -> bool) -> bool {
    exists|i: int| 0 <= i < s.len() && p(#[trigger] s[i])
}

/// `s` with `f` applied to each element that satisfies `p`.
pub open spec fn change_where<T>(s: Seq<T>, p: spec_fn(T) -> bool, f: spec_fn(T) -> T) -> Seq<T> {
    s.map_values(|x: T| if p(x) { f(x) } else { x })
}

pub proof fn lemma_first_found<T>(s: Seq<T>, p: spec_fn(T) -> bool, i: int)
    requires
        is_first(s, p, i),
    ensures
        first_index(s, p) == Some(i),
        first(s, p) == Some(s[i]),
        any(s, p),
{
    let k = choose|k: int| is_first(s, p, k);
    assert(is_first(s, p, k));
    if k < i {
        assert(!p(s[k]));
    } else if i < k {
        assert(!p(s[i]));
    }
}

pub proof fn lemma_first_absent<T>(s: Seq<T>, p: spec_fn(T) -> bool)
    requires
        none_match(s, p),
    ensures
        first_index(s, p) is None,
        first(s, p) is None,
        !any(s, p),
{
    if exists|i: int| is_first(s, p, i) {
        let k = choose|k: int| is_first(s, p, k);
        assert(is_first(s, p, k));
        assert(!p(s[k]));
    }
}

/// What `first_index` returns is a position in `s` whose element satisfies
/// `p`, and before which none does.
pub proof fn lemma_first_index<T>(s: Seq<T>, p: spec_fn(T) -> bool)
    ensures
        match first_index(s, p) {
            Some(i) => is_first(s, p, i),
            None => none_match(s, p),
        },
        first(s, p) is Some <==> any(s, p),
{
    if exists|i: int| is_first(s, p, i) {
        let k = choose|k: int| is_first(s, p, k);
        assert(is_first(s, p, k));
    } else {
        lemma_no_first(s, p, s.len() as int);
        assert(none_match(s, p));
    }
}

proof fn lemma_no_first<T>(s: Seq<T>, p: spec_fn(T) -> bool, n: int)
    requires
        !exists|i: int| is_first(s, p, i),
        0 <= n <= s.len(),
    ensures
        forall|j: int| 0 <= j < n ==> !p(#[trigger] s[j]),
    decreases n,
{
    if n > 0 {
        lemma_no_first(s, p, n - 1);
        if p(s[n - 1]) {
            assert(is_first(s, p, n - 1));
        }
    }
}

/// Filtering one element more: the element joins the kept ones if it
/// satisfies `p`.
pub proof fn lemma_filter_step<T>(s: Seq<T>, p: spec_fn(T) -> bool, i: int)
    requires
        0 <= i < s.len(),
    ensures
        s.take(i + 1).filter(p) == if p(s[i]) {
            s.take(i).filter(p).push(s[i])
        } else {
            s.take(i).filter(p)
        },
{
    let t = s.take(i + 1);
    assert(t.drop_last() =~= s.take(i));
    assert(t.last() == s[i]);
    reveal_with_fuel(Seq::filter, 2);
}

/// The kept elements satisfy `p`, come from `s`, and each element of `s`
/// that satisfies `p` is kept.
pub proof fn lemma_filter_members<T>(s: Seq<T>, p: spec_fn(T) -> bool)
    ensures
        forall|k: int| 0 <= k < s.filter(p).len() ==> p(#[trigger] s.filter(p)[k]) && s.contains(s.filter(p)[k]),
        forall|j: int| 0 <= j < s.len() && p(s[j]) ==> s.filter(p).contains(#[trigger] s[j]),
        s.filter(p).len() <= s.len(),
{
    s.filter_lemma(p);
    assert forall|k: int| 0 <= k < s.filter(p).len() implies s.contains(#[trigger] s.filter(p)[k]) by {
        assert(s.filter(p).contains(s.filter(p)[k]));
        s.lemma_filter_contains_rev(p, s.filter(p)[k]);
    }
}

/// Every element of `s` satisfies `p`.
pub open spec fn every<T>(s: Seq<T>, p: spec_fn(T) -> bool) -> bool {
    forall|i: int| 0 <= i < s.len() ==> p(#[trigger] s[i])
}

/// Each element of `s` stands in relation `r` to each later one.
pub open spec fn pairwise<T>(s: Seq<T>, r: spec_fn(T, T) -> bool) -> bool {
    forall|i: int, j: int| 0 <= i < j < s.len() ==> r(#[trigger] s[i], #[trigger] s[j])
}

/// Two predicates that agree on every element have the same first match.
pub proof fn lemma_first_agrees<T>(s: Seq<T>, p: spec_fn(T) -> bool, q: spec_fn(T) -> bool)
    requires
        forall|x: T| #[trigger] p(x) == q(x),
    ensures
        first_index(s, p) == first_index(s, q),
        first(s, p) == first(s, q),
        any(s, p) == any(s, q),
{
    lemma_first_index(s, p);
    match first_index(s, p) {
        Some(i) => {
            assert(is_first(s, q, i));
            lemma_first_found(s, q, i);
        },
        None => {
            assert(none_match(s, q));
            lemma_first_absent(s, q);
        },
    }
}

/// The first match of a predicate is found wherever the rows before it do
/// not match; it stays the first match when rows are appended.
pub proof fn lemma_first_after_push<T>(s: Seq<T>, p: spec_fn(T) -> bool, x: T)
    ensures
        first(s.push(x), p) == if first(s, p) is Some {
            first(s, p)
        } else if p(x) {
            Some(x)
        } else {
            None
        },
{
    lemma_first_index(s, p);
    let t = s.push(x);
    match first_index(s, p) {
        Some(i) => {
            assert(t[i] == s[i]);
            assert(is_first(t, p, i)) by {
                assert forall|j: int| 0 <= j < i implies !p(#[trigger] t[j]) by {
                    assert(t[j] == s[j]);
                }
            }
            lemma_first_found(t, p, i);
        },
        None => {
            if p(x) {
                assert(is_first(t, p, s.len() as int)) by {
                    assert forall|j: int| 0 <= j < s.len() implies !p(#[trigger] t[j]) by {
                        assert(t[j] == s[j]);
                    }
                }
                lemma_first_found(t, p, s.len() as int);
            } else {
                assert(none_match(t, p)) by {
                    assert forall|j: int| 0 <= j < t.len() implies !p(#[trigger] t[j]) by {
                        if j < s.len() {
                            assert(t[j] == s[j]);
                        }
                    }
                }
                lemma_first_absent(t, p);
            }
        },
    }
}

/// A change that does not touch what `p` looks at leaves the first match
/// where it was, changed like the other rows.
pub proof fn lemma_first_after_change<T>(s: Seq<T>, g: spec_fn(T) -> T, p: spec_fn(T) -> bool)
    requires
        forall|x: T| #[trigger] p(g(x)) == p(x),
    ensures
        first_index(s.map_values(g), p) == first_index(s, p),
        first(s.map_values(g), p) == match first(s, p) {
            Some(x) => Some(g(x)),
            None => None,
        },
{
    lemma_first_index(s, p);
    let t = s.map_values(g);
    match first_index(s, p) {
        Some(i) => {
            assert(is_first(t, p, i)) by {
                assert(t[i] == g(s[i]));
                assert forall|j: int| 0 <= j < i implies !p(#[trigger] t[j]) by {
                    assert(t[j] == g(s[j]));
                }
            }
            lemma_first_found(t, p, i);
        },
        None => {
            assert(none_match(t, p)) by {
                assert forall|j: int| 0 <= j < t.len() implies !p(#[trigger] t[j]) by {
                    assert(t[j] == g(s[j]));
                }
            }
            lemma_first_absent(t, p);
        },
    }
}

/// Filtering keeps what holds of every element.
pub proof fn lemma_every_filter<T>(s: Seq<T>, keep: spec_fn(T) -> bool, p: spec_fn(T) -> bool)
    requires
        every(s, p),
    ensures
        every(s.filter(keep), p),
{
    lemma_filter_members(s, keep);
    assert forall|i: int| 0 <= i < s.filter(keep).len() implies p(#[trigger] s.filter(keep)[i]) by {
        let x = s.filter(keep)[i];
        assert(s.contains(x));
        let k = choose|k: int| 0 <= k < s.len() && s[k] == x;
        assert(p(s[k]));
    }
}

/// Filtering keeps what holds between every two elements.
pub proof fn lemma_pairwise_filter<T>(s: Seq<T>, keep: spec_fn(T) -> bool, r: spec_fn(T, T) -> bool)
    requires
        pairwise(s, r),
    ensures
        pairwise(s.filter(keep), r),
    decreases s.len(),
{
    reveal(Seq::filter);
    if s.len() > 0 {
        let before = s.drop_last();
        assert(pairwise(before, r)) by {
            assert forall|i: int, j: int| 0 <= i < j < before.len() implies r(
                #[trigger] before[i],
                #[trigger] before[j],
            ) by {
                assert(before[i] == s[i] && before[j] == s[j]);
            }
        }
        lemma_pairwise_filter(before, keep, r);
        if keep(s.last()) {
            let kept = before.filter(keep);
            let all = s.filter(keep);
            assert(all == kept.push(s.last()));
            lemma_filter_members(before, keep);
            assert forall|i: int, j: int| 0 <= i < j < all.len() implies r(#[trigger] all[i], #[trigger] all[j]) by {
                if j < kept.len() {
                    assert(all[i] == kept[i] && all[j] == kept[j]);
                } else {
                    assert(all[i] == kept[i]);
                    assert(before.contains(kept[i]));
                    let k = choose|k: int| 0 <= k < before.len() && before[k] == kept[i];
                    assert(s[k] == before[k]);
                    assert(r(s[k], s[s.len() - 1]));
                }
            }
        }
    }
}

/// What is kept of `s` holds no element that fails `keep`, and holds every
/// element that satisfies it.
pub proof fn lemma_filter_exact<T>(s: Seq<T>, keep: spec_fn(T) -> bool)
    ensures
        every(s.filter(keep), keep),
        forall|x: T| #[trigger] s.filter(keep).contains(x) <==> s.contains(x) && keep(x),
{
    lemma_filter_members(s, keep);
    assert forall|x: T| #[trigger] s.filter(keep).contains(x) <==> s.contains(x) && keep(x) by {
        if s.filter(keep).contains(x) {
            let k = choose|k: int| 0 <= k < s.filter(keep).len() && s.filter(keep)[k] == x;
            assert(keep(s.filter(keep)[k]));
            assert(s.contains(s.filter(keep)[k]));
        }
        if s.contains(x) && keep(x) {
            let k = choose|k: int| 0 <= k < s.len() && s[k] == x;
            assert(s.filter(keep).contains(s[k]));
        }
    }
}

/// A match stays a match when an element is appended.
pub proof fn lemma_any_after_push<T>(s: Seq<T>, p: spec_fn(T) -> bool, x: T)
    ensures
        any(s, p) ==> any(s.push(x), p),
        p(x) ==> any(s.push(x), p),
{
    if any(s, p) {
        let i = choose|i: int| 0 <= i < s.len() && p(#[trigger] s[i]);
        assert(s.push(x)[i] == s[i]);
    }
    if p(x) {
        assert(s.push(x)[s.len() as int] == x);
    }
}

/// A match that is kept stays a match.
pub proof fn lemma_any_after_filter<T>(s: Seq<T>, p: spec_fn(T) -> bool, keep: spec_fn(T) -> bool)
    requires
        any(s, p),
        forall|x: T| #[trigger] p(x) ==> keep(x),
    ensures
        any(s.filter(keep), p),
{
    let i = choose|i: int| 0 <= i < s.len() && p(#[trigger] s[i]);
    lemma_filter_members(s, keep);
    assert(s.filter(keep).contains(s[i]));
    let j = choose|j: int| 0 <= j < s.filter(keep).len() && s.filter(keep)[j] == s[i];
    assert(p(s.filter(keep)[j]));
}

/// A match stays a match under a change of the elements that keeps `p`.
pub proof fn lemma_any_after_change<T>(s: Seq<T>, t: Seq<T>, p: spec_fn(T) -> bool)
    requires
        any(s, p),
        t.len() == s.len(),
        forall|i: int| 0 <= i < s.len() && p(#[trigger] s[i]) ==> p(t[i]),
    ensures
        any(t, p),
{
    let i = choose|i: int| 0 <= i < s.len() && p(#[trigger] s[i]);
    assert(p(t[i]));
}

} // verus!
