//! The points of a database answer: ordered by stamp, equal stamps kept in the order
//! the database gave them, a missing value read as -1.
use vstd::prelude::*;
use vstd::relations::{sorted_by, total_ordering};

verus! {

broadcast use vstd::seq_lib::group_to_multiset_ensures;

/// Each row with its position.
pub open spec fn indexed(s: Seq<(i32, Option<i64>)>) -> Seq<(int, (i32, Option<i64>))> {
    Seq::new(s.len(), |i: int| (i, s[i]))
}

/// An order of optional values, `None` first.
pub open spec fn opt_le(a: Option<i64>, b: Option<i64>) -> bool {
    match (a, b) {
        (None, _) => true,
        (Some(_), None) => false,
        (Some(x), Some(y)) => x <= y,
    }
}

/// Rows with positions ordered by stamp, then by position.
pub open spec fn row_le(a: (int, (i32, Option<i64>)), b: (int, (i32, Option<i64>))) -> bool {
    a.1.0 < b.1.0 || (a.1.0 == b.1.0 && (a.0 < b.0 || (a.0 == b.0 && opt_le(a.1.1, b.1.1))))
}

/// `row_le` as a relation.
pub open spec fn row_order() -> spec_fn((int, (i32, Option<i64>)), (int, (i32, Option<i64>))) -> bool {
    |a: (int, (i32, Option<i64>)), b: (int, (i32, Option<i64>))| row_le(a, b)
}

pub proof fn lemma_row_order_total()
    ensures
        total_ordering(row_order()),
{
}

/// The rows ordered by stamp, rows with equal stamps in their given order (a stable
/// sort by stamp).
pub open spec fn stable_sort_ts(s: Seq<(i32, Option<i64>)>) -> Seq<(i32, Option<i64>)> {
    indexed(s).sort_by(row_order()).map_values(|p: (int, (i32, Option<i64>))| p.1)
}

/// A row as a point: its value, or -1 when it has none (the item, device or sub-item
/// does not exist), to tell it from a real 0.
pub open spec fn row_point(r: (i32, Option<i64>)) -> (i32, i64) {
    (r.0, match r.1 {
        Some(v) => v,
        None => -1i64,
    })
}

/// The points of the rows: stably sorted by stamp, a missing value read as -1.
pub open spec fn db_points(s: Seq<(i32, Option<i64>)>) -> Seq<(i32, i64)> {
    stable_sort_ts(s).map_values(|r: (i32, Option<i64>)| row_point(r))
}

/// Sorts rows by stamp, keeping the order of rows with equal stamps.
pub fn sort_rows(rows: &Vec<(i32, Option<i64>)>) -> (out: Vec<(i32, Option<i64>)>)
    ensures
        out@ == stable_sort_ts(rows@),
{
    let ghost leq = row_order();
    let mut out: Vec<(i32, Option<i64>)> = Vec::new();
    let ghost mut g: Seq<(int, (i32, Option<i64>))> = Seq::empty();
    let mut k: usize = 0;
    assert(indexed(rows@).take(0) =~= Seq::<(int, (i32, Option<i64>))>::empty());
    while k < rows.len()
        invariant
            k <= rows@.len(),
            leq == row_order(),
            out@ == g.map_values(|p: (int, (i32, Option<i64>))| p.1),
            sorted_by(g, leq),
            g.to_multiset() == indexed(rows@).take(k as int).to_multiset(),
            forall|i: int| 0 <= i < g.len() ==> 0 <= (#[trigger] g[i]).0 < k,
        decreases rows@.len() - k,
    {
        let x = rows[k];
        let ghost e = (k as int, x);
        let mut p: usize = out.len();
        while p > 0 && out[p - 1].0 > x.0
            invariant
                p <= out@.len(),
                out@.len() == g.len(),
                out@ == g.map_values(|q: (int, (i32, Option<i64>))| q.1),
                forall|i: int| p <= i < g.len() ==> (#[trigger] g[i]).1.0 > x.0,
            decreases p,
        {
            p = p - 1;
        }
        proof {
            assert forall|i: int| 0 <= i < p implies (#[trigger] g[i]).1.0 <= x.0 by {
                if p > 0 {
                    assert(g[p - 1].1.0 <= x.0);
                    if i < p - 1 {
                        assert(leq(g[i], g[p - 1]));
                    }
                }
            }
        }
        let ghost old_g = g;
        out.insert(p, x);
        proof {
            g = g.insert(p as int, e);
            assert(out@ =~= g.map_values(|q: (int, (i32, Option<i64>))| q.1));
            assert forall|i: int, j: int| 0 <= i < j < g.len() implies #[trigger] leq(
                g[i],
                g[j],
            ) by {
                if j < p {
                    assert(g[i] == old_g[i] && g[j] == old_g[j]);
                } else if j == p {
                    assert(g[i] == old_g[i]);
                    assert(old_g[i].1.0 <= x.0);
                    assert(old_g[i].0 < k);
                } else if i == p {
                    assert(g[j] == old_g[j - 1]);
                    assert(old_g[j - 1].1.0 > x.0);
                } else if i < p {
                    assert(g[i] == old_g[i] && g[j] == old_g[j - 1]);
                    assert(leq(old_g[i], old_g[j - 1]));
                } else {
                    assert(g[i] == old_g[i - 1] && g[j] == old_g[j - 1]);
                    assert(leq(old_g[i - 1], old_g[j - 1]));
                }
            }
            vstd::seq_lib::to_multiset_insert(old_g, p as int, e);
            assert(indexed(rows@).take(k + 1) =~= indexed(rows@).take(k as int).push(e));
            assert forall|i: int| 0 <= i < g.len() implies 0 <= (#[trigger] g[i]).0 < k + 1 by {
                if i < p {
                    assert(g[i] == old_g[i]);
                } else if i > p {
                    assert(g[i] == old_g[i - 1]);
                }
            }
        }
        k = k + 1;
    }
    proof {
        assert(indexed(rows@).take(rows@.len() as int) =~= indexed(rows@));
        lemma_row_order_total();
        indexed(rows@).lemma_sort_by_ensures(leq);
        vstd::seq_lib::lemma_sorted_unique(g, indexed(rows@).sort_by(leq), leq);
    }
    out
}

/// The rows as points, a missing value read as -1.
pub fn fill_values(rows: &Vec<(i32, Option<i64>)>) -> (out: Vec<(i32, i64)>)
    ensures
        out@ == rows@.map_values(|r: (i32, Option<i64>)| row_point(r)),
{
    let mut out: Vec<(i32, i64)> = Vec::new();
    let mut i: usize = 0;
    while i < rows.len()
        invariant
            i <= rows@.len(),
            out@ == rows@.take(i as int).map_values(|r: (i32, Option<i64>)| row_point(r)),
        decreases rows@.len() - i,
    {
        let (ts, v) = rows[i];
        let x: i64 = match v {
            Some(x) => x,
            None => -1,
        };
        out.push((ts, x));
        assert(out@ =~= rows@.take(i + 1).map_values(|r: (i32, Option<i64>)| row_point(r)));
        i = i + 1;
    }
    assert(rows@.take(rows@.len() as int) =~= rows@);
    out
}

/// The points of database rows: stably sorted by stamp, a missing value read as -1.
pub fn points_of(rows: &Vec<(i32, Option<i64>)>) -> (out: Vec<(i32, i64)>)
    ensures
        out@ == db_points(rows@),
{
    let sorted = sort_rows(rows);
    fill_values(&sorted)
}

} // verus!
