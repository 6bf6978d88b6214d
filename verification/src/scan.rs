//! Scans over a table held in a vector, stated over the views of its rows.

use vstd::prelude::*;
use crate::rows::views;
use crate::seqs::{
    any, first, is_first, lemma_filter_step, lemma_first_absent, lemma_first_found, none_match,
};

verus! {

/// The position of the first row whose view satisfies `p`.
pub(crate) fn find_where<R: View, F: Fn(&R) -> bool>(rows: &Vec<R>, test: F, Ghost(p): Ghost<spec_fn(R::V) -> bool>) -> (found: Option<usize>)
    requires
        forall|r: &R| #[trigger] test.requires((r,)),
        forall|r: &R, b: bool| #[trigger] test.ensures((r,), b) ==> b == p(r@),
    ensures
        match found {
            Some(i) => {
                &&& i < rows.len()
                &&& is_first(views(rows@), p, i as int)
                &&& first(views(rows@), p) == Some(rows[i as int]@)
                &&& any(views(rows@), p)
            },
            None => {
                &&& none_match(views(rows@), p)
                &&& first(views(rows@), p) is None
                &&& !any(views(rows@), p)
            },
        },
{
    let n: usize = rows.len();
    let mut i: usize = 0;
    while i < n
        invariant
            i <= n,
            n == rows.len(),
            forall|r: &R| #[trigger] test.requires((r,)),
            forall|r: &R, b: bool| #[trigger] test.ensures((r,), b) ==> b == p(r@),
            forall|j: int| 0 <= j < i ==> !p(#[trigger] views(rows@)[j]),
        decreases n - i,
    {
        if test(&rows[i]) {
            proof {
                lemma_first_found(views(rows@), p, i as int);
            }
            return Some(i);
        }
        i += 1;
    }
    proof {
        lemma_first_absent(views(rows@), p);
    }
    None
}

/// What `pick` reads from each row whose view satisfies `p`, in table order.
pub(crate) fn select_where<R: View, K, F: Fn(&R) -> bool, G: Fn(&R) -> K>(
    rows: &Vec<R>,
    test: F,
    pick: G,
    Ghost(p): Ghost<spec_fn(R::V) -> bool>,
    Ghost(g): Ghost<spec_fn(R::V) -> K>,
) -> (picked: Vec<K>)
    requires
        forall|r: &R| #[trigger] test.requires((r,)),
        forall|r: &R, b: bool| #[trigger] test.ensures((r,), b) ==> b == p(r@),
        forall|r: &R| #[trigger] pick.requires((r,)),
        forall|r: &R, k: K| #[trigger] pick.ensures((r,), k) ==> k == g(r@),
    ensures
        picked@ == views(rows@).filter(p).map_values(g),
{
    let ghost all = views(rows@);
    let mut picked: Vec<K> = Vec::new();
    let n: usize = rows.len();
    let mut i: usize = 0;
    while i < n
        invariant
            i <= n,
            n == rows.len(),
            all == views(rows@),
            forall|r: &R| #[trigger] test.requires((r,)),
            forall|r: &R, b: bool| #[trigger] test.ensures((r,), b) ==> b == p(r@),
            forall|r: &R| #[trigger] pick.requires((r,)),
            forall|r: &R, k: K| #[trigger] pick.ensures((r,), k) ==> k == g(r@),
            picked@ =~= all.take(i as int).filter(p).map_values(g),
        decreases n - i,
    {
        proof {
            lemma_filter_step(all, p, i as int);
        }
        if test(&rows[i]) {
            let k = pick(&rows[i]);
            picked.push(k);
        }
        i += 1;
    }
    proof {
        assert(all.take(n as int) =~= all);
    }
    picked
}

/// Removes every row whose view does not satisfy `keep`.
pub(crate) fn keep_where<R: View, F: Fn(&R) -> bool>(rows: &mut Vec<R>, test: F, Ghost(keep): Ghost<spec_fn(R::V) -> bool>)
    requires
        forall|r: &R| #[trigger] test.requires((r,)),
        forall|r: &R, b: bool| #[trigger] test.ensures((r,), b) ==> b == keep(r@),
    ensures
        views(final(rows)@) == views(old(rows)@).filter(keep),
{
    let ghost before = views(rows@);
    let mut kept: usize = 0;
    let mut seen: usize = 0;
    let total: usize = rows.len();
    while seen < total
        invariant
            kept <= seen <= total,
            total == before.len(),
            rows@.len() == kept + (total - seen),
            forall|r: &R| #[trigger] test.requires((r,)),
            forall|r: &R, b: bool| #[trigger] test.ensures((r,), b) ==> b == keep(r@),
            views(rows@) =~= before.take(seen as int).filter(keep) + before.skip(seen as int),
            before.take(seen as int).filter(keep).len() == kept,
        decreases total - seen,
    {
        proof {
            lemma_filter_step(before, keep, seen as int);
            assert(views(rows@)[kept as int] == before[seen as int]);
        }
        let ghost prefix = before.take(seen as int).filter(keep);
        let ghost now = views(rows@);
        if test(&rows[kept]) {
            kept += 1;
        } else {
            rows.remove(kept);
        }
        seen += 1;
        proof {
            let next = before.take(seen as int).filter(keep) + before.skip(seen as int);
            assert(views(rows@).len() == next.len());
            assert forall|k: int| 0 <= k < next.len() implies views(rows@)[k] == next[k] by {
                if k < prefix.len() {
                    assert(now[k] == prefix[k]);
                } else if kept as int == prefix.len() {
                    assert(now[k + 1] == before.skip(seen as int - 1)[k + 1 - prefix.len()]);
                } else {
                    assert(now[k] == before.skip(seen as int - 1)[k - prefix.len()]);
                }
            }
        }
    }
    proof {
        assert(before.take(total as int) =~= before);
    }
}

} // verus!
