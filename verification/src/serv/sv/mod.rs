//! The `sv_*` queries: a time series of one reading of one instance, taken from the
//! in-memory cache, from the database, or from both, and optionally reduced to sums,
//! averages, minima and maxima.
use vstd::prelude::*;
use vstd::string::*;

use crate::sv::aliyun::{
    cache_after_keep, lemma_keep_in_cache_rising, spec_db_stamp, stamps_rising, Cache, Gauge,
    CACHEINTERVAL,
};
use crate::textbuf::{div_trunc, divisible, push_chars, push_decimal, push_str, spec_decimal, str_eq, to_string};


mod json;
mod points;

pub use json::{json_int_list, json_named_text, json_rows, json_series_text, json_str_list, plain_json_text};
pub use points::{db_points, points_of, stable_sort_ts};

verus! {

/// The parameters of a query.
pub struct Params {
    /// (item, None, None) or (submethod, Some(device), Some(item)).
    pub item: (String, Option<String>, Option<String>),
    pub instance_id: String,
    /// First and last stamp wanted, in seconds, both included.
    pub ts_range: [i32; 2],
    /// Spacing of the points wanted, in seconds.
    pub interval: Option<i32>,
    /// Reductions wanted in place of the points.
    pub algo: Option<Vec<String>>,
}

/// A query.
pub struct Req {
    pub method: String,
    pub params: Params,
    pub id: i32,
}

/// The kind of resource a query is about.
#[derive(Clone, Copy, PartialEq, Eq, Structural)]
pub enum Kind {
    Ecs,
    Slb,
    Rds,
    Mongodb,
    Redis,
    Memcache,
}

/// The kind a method names: exactly one of `sv_ecs`, `sv_slb`, `sv_rds`, `sv_mongodb`,
/// `sv_redis` and `sv_memcache`; `None` for any other method.
pub open spec fn kind_of(method: Seq<char>) -> Option<Kind> {
    if method == "sv_ecs"@ {
        Some(Kind::Ecs)
    } else if method == "sv_slb"@ {
        Some(Kind::Slb)
    } else if method == "sv_rds"@ {
        Some(Kind::Rds)
    } else if method == "sv_mongodb"@ {
        Some(Kind::Mongodb)
    } else if method == "sv_redis"@ {
        Some(Kind::Redis)
    } else if method == "sv_memcache"@ {
        Some(Kind::Memcache)
    } else {
        None
    }
}

/// The kind `method` names, if it names one.
pub fn method_kind(method: &str) -> (r: Option<Kind>)
    ensures
        r == kind_of(method@),
{
    if str_eq(method, "sv_ecs") {
        Some(Kind::Ecs)
    } else if str_eq(method, "sv_slb") {
        Some(Kind::Slb)
    } else if str_eq(method, "sv_rds") {
        Some(Kind::Rds)
    } else if str_eq(method, "sv_mongodb") {
        Some(Kind::Mongodb)
    } else if str_eq(method, "sv_redis") {
        Some(Kind::Redis)
    } else if str_eq(method, "sv_memcache") {
        Some(Kind::Memcache)
    } else {
        None
    }
}

/// The kind query `req` is about; a method that names no kind is answered "method
/// invalid" with the request's id, before any cache or database is read.
pub fn query_kind(req: &Req) -> (r: Result<Kind, (String, i32)>)
    ensures
        match kind_of(req.method@) {
            Some(k) => r matches Ok(q) && q == k,
            None => r matches Err((e, n)) && e@ == "method invalid"@ && n == req.id,
        },
{
    match method_kind(req.method.as_str()) {
        Some(k) => Ok(k),
        None => Err(("method invalid".to_owned(), req.id)),
    }
}

/// The spacing a query gets: the cache interval when none is given or a smaller one is,
/// else the one given, moved down to a multiple of the cache interval.
pub open spec fn aligned_interval(interval: Option<i32>) -> i32 {
    match interval {
        Some(itv) => if itv < CACHEINTERVAL {
            CACHEINTERVAL
        } else {
            (itv / CACHEINTERVAL * CACHEINTERVAL) as i32
        },
        None => CACHEINTERVAL,
    }
}

/// The spacing a query gets.
pub fn align_interval(interval: Option<i32>) -> (r: i32)
    ensures
        r == aligned_interval(interval),
{
    match interval {
        Some(itv) => {
            if CACHEINTERVAL > itv {
                CACHEINTERVAL
            } else {
                itv / CACHEINTERVAL * CACHEINTERVAL
            }
        },
        None => CACHEINTERVAL,
    }
}

/// The spacing a query gets is a multiple of the cache interval, at least the cache
/// interval, and never more than what was asked for when that was at least the cache
/// interval; asking again for the spacing given changes nothing.
pub proof fn lemma_aligned_interval(interval: Option<i32>)
    ensures
        aligned_interval(interval) >= CACHEINTERVAL,
        aligned_interval(interval) % CACHEINTERVAL == 0,
        interval matches Some(itv) ==> (itv >= CACHEINTERVAL ==> aligned_interval(interval) <= itv
            && itv - aligned_interval(interval) < CACHEINTERVAL),
        aligned_interval(Some(aligned_interval(interval))) == aligned_interval(interval),
{
}

/// Where the points of a query come from.
#[derive(Clone, Copy, PartialEq, Eq, Structural)]
pub enum Plan {
    /// All from the database.
    Db,
    /// All from the cache.
    Cache,
    /// From the database up to `db_end`, the rest from the cache.
    Split { db_end: i32 },
}

/// Where the points of a query for `[start, end]` come from, given the stamp of the
/// oldest cached snapshot.
pub open spec fn plan_of(front: Option<i32>, start: i32, end: i32) -> Plan {
    match front {
        None => Plan::Db,
        Some(f) => if f > end {
            Plan::Db
        } else if f < start + CACHEINTERVAL {
            Plan::Cache
        } else {
            Plan::Split { db_end: (f - CACHEINTERVAL) as i32 }
        },
    }
}

/// Where the points of a query come from.
pub fn plan(front: Option<i32>, start: i32, end: i32) -> (p: Plan)
    ensures
        p == plan_of(front, start, end),
{
    match front {
        None => Plan::Db,
        Some(f) => {
            if f > end {
                Plan::Db
            } else if (f as i64) < (start as i64) + (CACHEINTERVAL as i64) {
                Plan::Cache
            } else {
                Plan::Split { db_end: f - CACHEINTERVAL }
            }
        },
    }
}

/// A query is split between the database and the cache without overlap or gap: the
/// database part ends one cache interval before the oldest cached snapshot and not
/// before the start, the cached part starts there; a query all from the cache starts
/// within one cache interval of the oldest cached snapshot, and one all from the
/// database has nothing cached up to its end.
pub proof fn lemma_plan(front: Option<i32>, start: i32, end: i32)
    ensures
        match plan_of(front, start, end) {
            Plan::Split { db_end } => front matches Some(f) && db_end + CACHEINTERVAL == f
                && start <= db_end && f <= end,
            Plan::Cache => front matches Some(f) && f <= end && f < start + CACHEINTERVAL,
            Plan::Db => front is None || front->0 > end,
        },
{
}

/// The reading the item of a query selects, with its device and sub-item: the reading
/// its name selects, `None` for a name that selects none; `None` as a whole when the item
/// has neither form.
pub open spec fn selection<T: Gauge>(item: (Seq<char>, Option<Seq<char>>, Option<Seq<char>>)) -> Option<
    (Option<T::Cb>, Seq<char>, Seq<char>),
> {
    match item {
        (name, None, None) => Some((T::cb_spec(name), Seq::empty(), Seq::empty())),
        (sub, Some(dev), Some(it)) => Some((T::cb_spec(sub), dev, it)),
        _ => None,
    }
}

/// What a snapshot reads for a selection: the selected reading, or -1 when the item
/// names no reading, to tell it from a real 0.
pub open spec fn reading<T: Gauge>(v: T, sel: (Option<T::Cb>, Seq<char>, Seq<char>)) -> i64 {
    match sel.0 {
        Some(cb) => v.read_spec(cb, sel.1, sel.2) as i64,
        None => -1i64,
    }
}

/// The item of a query as text.
pub open spec fn item_view(item: (String, Option<String>, Option<String>)) -> (
    Seq<char>,
    Option<Seq<char>>,
    Option<Seq<char>>,
) {
    (
        item.0@,
        match item.1 {
            Some(d) => Some(d@),
            None => None,
        },
        match item.2 {
            Some(i) => Some(i@),
            None => None,
        },
    )
}

/// The cached points of one instance: the snapshots are scanned oldest first up to the
/// first one stamped after `end`; a snapshot contributes when its stamp is at least
/// `start`, is a multiple of `step`, and it holds the instance.
pub open spec fn cache_scan<T: Gauge>(
    entries: Seq<(i32, Map<Seq<char>, T>)>,
    id: Seq<char>,
    start: i32,
    end: i32,
    step: i32,
    sel: (Option<T::Cb>, Seq<char>, Seq<char>),
) -> Seq<(i32, i64)>
    decreases entries.len(),
{
    if entries.len() == 0 {
        Seq::empty()
    } else if entries[0].0 > end {
        Seq::empty()
    } else {
        let e = entries[0];
        let here = if e.0 >= start && e.0 % step == 0 && e.1.contains_key(id) {
            seq![(e.0, reading::<T>(e.1[id], sel))]
        } else {
            Seq::empty()
        };
        here + cache_scan(entries.drop_first(), id, start, end, step, sel)
    }
}

/// The cached points of one instance within `[start, end]`, wherever they stand in the
/// cache: from each snapshot whose stamp is in the range and a multiple of `step`, and
/// that holds the instance, in cache order.
pub open spec fn cache_window<T: Gauge>(
    entries: Seq<(i32, Map<Seq<char>, T>)>,
    id: Seq<char>,
    start: i32,
    end: i32,
    step: i32,
    sel: (Option<T::Cb>, Seq<char>, Seq<char>),
) -> Seq<(i32, i64)>
    decreases entries.len(),
{
    if entries.len() == 0 {
        Seq::empty()
    } else {
        let e = entries[0];
        let here = if start <= e.0 <= end && e.0 % step == 0 && e.1.contains_key(id) {
            seq![(e.0, reading::<T>(e.1[id], sel))]
        } else {
            Seq::empty()
        };
        here + cache_window(entries.drop_first(), id, start, end, step, sel)
    }
}

proof fn lemma_window_after_end<T: Gauge>(
    entries: Seq<(i32, Map<Seq<char>, T>)>,
    id: Seq<char>,
    start: i32,
    end: i32,
    step: i32,
    sel: (Option<T::Cb>, Seq<char>, Seq<char>),
)
    requires
        stamps_rising(entries),
        entries.len() > 0 ==> entries[0].0 > end,
    ensures
        cache_window(entries, id, start, end, step, sel) == Seq::<(i32, i64)>::empty(),
    decreases entries.len(),
{
    if entries.len() > 0 {
        let rest = entries.drop_first();
        assert forall|i: int, j: int| 0 <= i < j < rest.len() implies rest[i].0 < rest[j].0 by {
            assert(rest[i] == entries[i + 1] && rest[j] == entries[j + 1]);
        }
        if rest.len() > 0 {
            assert(rest[0] == entries[1]);
            assert(entries[0].0 < entries[1].0);
        }
        lemma_window_after_end(rest, id, start, end, step, sel);
        assert(cache_window(entries, id, start, end, step, sel) =~= Seq::<(i32, i64)>::empty());
    }
}

/// Scanning the cache stops at the first snapshot stamped after the range and loses no
/// point by it: on a cache in stamp order, the scan gives exactly the points of every
/// cached snapshot within the range.
pub proof fn lemma_cache_scan_window<T: Gauge>(
    entries: Seq<(i32, Map<Seq<char>, T>)>,
    id: Seq<char>,
    start: i32,
    end: i32,
    step: i32,
    sel: (Option<T::Cb>, Seq<char>, Seq<char>),
)
    requires
        stamps_rising(entries),
    ensures
        cache_scan(entries, id, start, end, step, sel) == cache_window(
            entries,
            id,
            start,
            end,
            step,
            sel,
        ),
    decreases entries.len(),
{
    if entries.len() > 0 {
        let rest = entries.drop_first();
        assert forall|i: int, j: int| 0 <= i < j < rest.len() implies rest[i].0 < rest[j].0 by {
            assert(rest[i] == entries[i + 1] && rest[j] == entries[j + 1]);
        }
        if entries[0].0 > end {
            lemma_window_after_end(entries, id, start, end, step, sel);
        } else {
            lemma_cache_scan_window(rest, id, start, end, step, sel);
        }
    }
}

proof fn lemma_window_concat<T: Gauge>(
    a: Seq<(i32, Map<Seq<char>, T>)>,
    b: Seq<(i32, Map<Seq<char>, T>)>,
    id: Seq<char>,
    start: i32,
    end: i32,
    step: i32,
    sel: (Option<T::Cb>, Seq<char>, Seq<char>),
)
    ensures
        cache_window(a + b, id, start, end, step, sel) == cache_window(a, id, start, end, step, sel)
            + cache_window(b, id, start, end, step, sel),
    decreases a.len(),
{
    if a.len() == 0 {
        assert(a + b =~= b);
        assert(cache_window(a, id, start, end, step, sel) =~= Seq::<(i32, i64)>::empty());
    } else {
        assert((a + b)[0] == a[0]);
        assert((a + b).drop_first() =~= a.drop_first() + b);
        lemma_window_concat(a.drop_first(), b, id, start, end, step, sel);
        let e = a[0];
        let here = if start <= e.0 <= end && e.0 % step == 0 && e.1.contains_key(id) {
            seq![(e.0, reading::<T>(e.1[id], sel))]
        } else {
            Seq::<(i32, i64)>::empty()
        };
        assert(here + (cache_window(a.drop_first(), id, start, end, step, sel) + cache_window(
            b,
            id,
            start,
            end,
            step,
            sel,
        )) =~= (here + cache_window(a.drop_first(), id, start, end, step, sel)) + cache_window(
            b,
            id,
            start,
            end,
            step,
            sel,
        ));
    }
}

proof fn lemma_window_before<T: Gauge>(
    entries: Seq<(i32, Map<Seq<char>, T>)>,
    id: Seq<char>,
    start: i32,
    end: i32,
    step: i32,
    sel: (Option<T::Cb>, Seq<char>, Seq<char>),
)
    requires
        forall|i: int| 0 <= i < entries.len() ==> (#[trigger] entries[i]).0 < start,
    ensures
        cache_window(entries, id, start, end, step, sel) == Seq::<(i32, i64)>::empty(),
    decreases entries.len(),
{
    if entries.len() > 0 {
        let rest = entries.drop_first();
        assert forall|i: int| 0 <= i < rest.len() implies (#[trigger] rest[i]).0 < start by {
            assert(rest[i] == entries[i + 1]);
        }
        lemma_window_before(rest, id, start, end, step, sel);
        assert(entries[0].0 < start);
        assert(cache_window(entries, id, start, end, step, sel) =~= Seq::<(i32, i64)>::empty());
    }
}

/// A reading kept in the cache is what a query for it gets back: after a snapshot
/// later than every cached one is kept on the cache interval, a query for one of its
/// instances over exactly its stamp answers that instance's reading, whether or not the
/// oldest snapshot was dropped for memory.
pub proof fn lemma_read_after_keep<T: Gauge>(
    c: Seq<(i32, Map<Seq<char>, T>)>,
    ts_ms: u64,
    data: Map<Seq<char>, T>,
    mem_low: bool,
    id: Seq<char>,
    sel: (Option<T::Cb>, Seq<char>, Seq<char>),
)
    requires
        stamps_rising(c),
        c.len() > 0 ==> c.last().0 < spec_db_stamp(ts_ms),
        spec_db_stamp(ts_ms) % CACHEINTERVAL == 0,
        data.contains_key(id),
    ensures
        ({
            let s = spec_db_stamp(ts_ms);
            cache_scan(cache_after_keep(c, ts_ms, data, mem_low), id, s, s, 1, sel) == seq![
                (s, reading::<T>(data[id], sel)),
            ]
        }),
{
    let s = spec_db_stamp(ts_ms);
    let b = if mem_low && c.len() > 0 {
        c.drop_first()
    } else {
        c
    };
    let r = cache_after_keep(c, ts_ms, data, mem_low);
    assert(r == b.push((s, data)));
    lemma_keep_in_cache_rising(c, ts_ms, data, mem_low);
    lemma_cache_scan_window(r, id, s, s, 1, sel);
    assert forall|i: int| 0 <= i < b.len() implies (#[trigger] b[i]).0 < s by {
        if mem_low && c.len() > 0 {
            assert(b[i] == c[i + 1]);
            if i + 1 < c.len() - 1 {
                assert(c[i + 1].0 < c[c.len() - 1].0);
            }
        } else {
            if i < c.len() - 1 {
                assert(c[i].0 < c[c.len() - 1].0);
            }
        }
    }
    lemma_window_before(b, id, s, s, 1, sel);
    let last = seq![(s, data)];
    assert(r =~= b + last);
    lemma_window_concat(b, last, id, s, s, 1, sel);
    assert(s % 1 == 0);
    assert(last.drop_first() =~= Seq::<(i32, Map<Seq<char>, T>)>::empty());
    assert(cache_window(last.drop_first(), id, s, s, 1, sel) =~= Seq::<(i32, i64)>::empty());
    assert(last[0] == (s, data));
    assert(last[0].1.contains_key(id));
    assert(cache_window(last, id, s, s, 1, sel) =~= seq![
        (s, reading::<T>(data[id], sel)),
    ]);
}

/// Every point a scan of the cache gives lies within the query's range, on its step,
/// and no earlier than the oldest cached snapshot: on a cache in stamp order, the cached
/// part of a query comes after any database part, which ends before that snapshot.
pub proof fn lemma_cache_scan_bounds<T: Gauge>(
    entries: Seq<(i32, Map<Seq<char>, T>)>,
    id: Seq<char>,
    start: i32,
    end: i32,
    step: i32,
    sel: (Option<T::Cb>, Seq<char>, Seq<char>),
)
    requires
        stamps_rising(entries),
    ensures
        forall|k: int|
            0 <= k < cache_scan(entries, id, start, end, step, sel).len() ==> {
                let t = (#[trigger] cache_scan(entries, id, start, end, step, sel)[k]).0;
                &&& start <= t <= end
                &&& t % step == 0
                &&& t >= entries[0].0
            },
    decreases entries.len(),
{
    let sc = cache_scan(entries, id, start, end, step, sel);
    if entries.len() > 0 && entries[0].0 <= end {
        let rest = entries.drop_first();
        assert forall|i: int, j: int| 0 <= i < j < rest.len() implies rest[i].0 < rest[j].0 by {
            assert(rest[i] == entries[i + 1] && rest[j] == entries[j + 1]);
        }
        lemma_cache_scan_bounds(rest, id, start, end, step, sel);
        let e = entries[0];
        let here = if e.0 >= start && e.0 % step == 0 && e.1.contains_key(id) {
            seq![(e.0, reading::<T>(e.1[id], sel))]
        } else {
            Seq::<(i32, i64)>::empty()
        };
        let tail = cache_scan(rest, id, start, end, step, sel);
        assert(sc == here + tail);
        assert forall|k: int| 0 <= k < sc.len() implies {
            let t = (#[trigger] sc[k]).0;
            &&& start <= t <= end
            &&& t % step == 0
            &&& t >= entries[0].0
        } by {
            if k >= here.len() {
                assert(sc[k] == tail[k - here.len()]);
                assert(rest[0] == entries[1]);
                assert(entries[0].0 < entries[1].0);
            }
        }
    }
}

/// The step a cached scan keeps: every snapshot when the spacing is the cache interval.
pub open spec fn cache_step(itv: i32) -> i32 {
    if itv == CACHEINTERVAL {
        1
    } else {
        itv
    }
}

/// The cached points a query gets, or `None` when its item has neither form.
pub open spec fn cache_points<T: Gauge>(
    entries: Seq<(i32, Map<Seq<char>, T>)>,
    item: (Seq<char>, Option<Seq<char>>, Option<Seq<char>>),
    id: Seq<char>,
    start: i32,
    end: i32,
    itv: i32,
) -> Option<Seq<(i32, i64)>> {
    match selection::<T>(item) {
        Some(sel) => Some(cache_scan(entries, id, start, end, cache_step(itv), sel)),
        None => None,
    }
}

/// Whether point `pt` is one a cached scan may give: stamped within `[start, end]` on a
/// multiple of `step`, and the reading, by `sel`, of instance `id` in a cached snapshot
/// with that stamp.
pub open spec fn cached_point<T: Gauge>(
    entries: Seq<(i32, Map<Seq<char>, T>)>,
    id: Seq<char>,
    start: i32,
    end: i32,
    step: i32,
    sel: (Option<T::Cb>, Seq<char>, Seq<char>),
    pt: (i32, i64),
) -> bool {
    &&& start <= pt.0 <= end
    &&& pt.0 % step == 0
    &&& exists|j: int|
        0 <= j < entries.len() && (#[trigger] entries[j]).0 == pt.0 && entries[j].1.contains_key(
            id,
        ) && pt.1 == reading::<T>(entries[j].1[id], sel)
}

proof fn lemma_cache_scan_points<T: Gauge>(
    entries: Seq<(i32, Map<Seq<char>, T>)>,
    id: Seq<char>,
    start: i32,
    end: i32,
    step: i32,
    sel: (Option<T::Cb>, Seq<char>, Seq<char>),
)
    ensures
        forall|k: int|
            0 <= k < cache_scan(entries, id, start, end, step, sel).len() ==> cached_point(
                entries,
                id,
                start,
                end,
                step,
                sel,
                #[trigger] cache_scan(entries, id, start, end, step, sel)[k],
            ),
    decreases entries.len(),
{
    if entries.len() > 0 && entries[0].0 <= end {
        let rest = entries.drop_first();
        lemma_cache_scan_points(rest, id, start, end, step, sel);
        let r = cache_scan(entries, id, start, end, step, sel);
        let r2 = cache_scan(rest, id, start, end, step, sel);
        let e = entries[0];
        let here = if e.0 >= start && e.0 % step == 0 && e.1.contains_key(id) {
            seq![(e.0, reading::<T>(e.1[id], sel))]
        } else {
            Seq::empty()
        };
        assert(r == here + r2);
        assert forall|k: int| 0 <= k < r.len() implies cached_point(
            entries,
            id,
            start,
            end,
            step,
            sel,
            #[trigger] r[k],
        ) by {
            if k < here.len() {
                assert(entries[0] == e);
            } else {
                let m = k - here.len();
                assert(r[k] == r2[m]);
                assert(cached_point(rest, id, start, end, step, sel, r2[m]));
                let j = choose|j: int|
                    0 <= j < rest.len() && (#[trigger] rest[j]).0 == r2[m].0 && rest[j].1.contains_key(
                        id,
                    ) && r2[m].1 == reading::<T>(rest[j].1[id], sel);
                assert(entries[j + 1] == rest[j]);
            }
        }
    }
}

/// A query answered from the cache gets only points stamped within its range and on a
/// multiple of its spacing (above the cache interval; at the cache interval every
/// cached stamp in range), each the reading of the instance in a cached snapshot with
/// that stamp.
pub proof fn lemma_cache_points_spacing<T: Gauge>(
    entries: Seq<(i32, Map<Seq<char>, T>)>,
    item: (Seq<char>, Option<Seq<char>>, Option<Seq<char>>),
    id: Seq<char>,
    start: i32,
    end: i32,
    itv: i32,
)
    ensures
        cache_points::<T>(entries, item, id, start, end, itv) matches Some(pts) ==> forall|k: int|
            0 <= k < pts.len() ==> {
                &&& start <= (#[trigger] pts[k]).0 <= end
                &&& itv != CACHEINTERVAL ==> pts[k].0 % itv == 0
                &&& exists|j: int|
                    0 <= j < entries.len() && (#[trigger] entries[j]).0 == pts[k].0
                        && entries[j].1.contains_key(id) && pts[k].1 == reading::<T>(
                        entries[j].1[id],
                        selection::<T>(item)->0,
                    )
            },
{
    if let Some(sel) = selection::<T>(item) {
        lemma_cache_scan_points(entries, id, start, end, cache_step(itv), sel);
    }
}

proof fn lemma_cache_scan_complete<T: Gauge>(
    entries: Seq<(i32, Map<Seq<char>, T>)>,
    id: Seq<char>,
    start: i32,
    end: i32,
    step: i32,
    sel: (Option<T::Cb>, Seq<char>, Seq<char>),
    j: int,
)
    requires
        forall|a: int, b: int| 0 <= a < b < entries.len() ==> entries[a].0 <= entries[b].0,
        0 <= j < entries.len(),
        start <= entries[j].0 <= end,
        entries[j].0 % step == 0,
        entries[j].1.contains_key(id),
    ensures
        cache_scan(entries, id, start, end, step, sel).contains(
            (entries[j].0, reading::<T>(entries[j].1[id], sel)),
        ),
    decreases j,
{
    let r = cache_scan(entries, id, start, end, step, sel);
    let rest = entries.drop_first();
    let r2 = cache_scan(rest, id, start, end, step, sel);
    let e = entries[0];
    let here = if e.0 >= start && e.0 % step == 0 && e.1.contains_key(id) {
        seq![(e.0, reading::<T>(e.1[id], sel))]
    } else {
        Seq::empty()
    };
    assert(e.0 <= end);
    assert(r == here + r2);
    if j == 0 {
        assert(r[0] == (entries[j].0, reading::<T>(entries[j].1[id], sel)));
    } else {
        assert(rest[j - 1] == entries[j]);
        lemma_cache_scan_complete(rest, id, start, end, step, sel, j - 1);
        let k = choose|k: int| 0 <= k < r2.len() && r2[k] == (
            entries[j].0,
            reading::<T>(entries[j].1[id], sel),
        );
        assert(r[k + here.len()] == r2[k]);
    }
}

/// A query answered from an oldest-first cache gets every point it asks for: each cached
/// snapshot stamped within its range, on a multiple of its spacing (any stamp at the
/// cache interval), that holds the instance gives its reading at its stamp.
pub proof fn lemma_cache_points_complete<T: Gauge>(
    entries: Seq<(i32, Map<Seq<char>, T>)>,
    item: (Seq<char>, Option<Seq<char>>, Option<Seq<char>>),
    id: Seq<char>,
    start: i32,
    end: i32,
    itv: i32,
    j: int,
)
    requires
        forall|a: int, b: int| 0 <= a < b < entries.len() ==> entries[a].0 <= entries[b].0,
        selection::<T>(item) is Some,
        0 <= j < entries.len(),
        start <= entries[j].0 <= end,
        itv == CACHEINTERVAL || entries[j].0 % itv == 0,
        entries[j].1.contains_key(id),
    ensures
        cache_points::<T>(entries, item, id, start, end, itv) matches Some(pts) && pts.contains(
            (entries[j].0, reading::<T>(entries[j].1[id], selection::<T>(item)->0)),
        ),
{
    let sel = selection::<T>(item)->0;
    assert(entries[j].0 % cache_step(itv) == 0);
    lemma_cache_scan_complete(entries, id, start, end, cache_step(itv), sel, j);
}

/// The points of a query from the cache, -1 for each value when the item names no
/// reading; `Err` with "params invalid" when the item has neither form.
pub fn cache_worker<T: Gauge>(req: &Req, itv: i32, cache: &Cache<T>) -> (r: Result<
    Vec<(i32, i64)>,
    String,
>)
    requires
        itv > 0,
    ensures
        match cache_points::<T>(
            cache@,
            item_view(req.params.item),
            req.params.instance_id@,
            req.params.ts_range[0],
            req.params.ts_range[1],
            itv,
        ) {
            Some(pts) => r matches Ok(v) && v@ == pts,
            None => r matches Err(e) && e@ == "params invalid"@,
        },
{
    let sel: (Option<T::Cb>, &str, &str) = match &req.params.item {
        (name, None, None) => (T::callback(name.as_str()), "", ""),
        (sub, Some(dev), Some(it)) => (T::callback(sub.as_str()), dev.as_str(), it.as_str()),
        _ => {
            return Err("params invalid".to_owned());
        },
    };
    let ghost gsel = (sel.0, sel.1@, sel.2@);
    proof {
        reveal_strlit("");
        assert(""@ =~= Seq::<char>::empty());
    }
    let step: i32 = if itv == CACHEINTERVAL { 1 } else { itv };
    let start = req.params.ts_range[0];
    let end = req.params.ts_range[1];
    let id = req.params.instance_id.as_str();
    let ghost all = cache@;
    let mut out: Vec<(i32, i64)> = Vec::new();
    let mut i: usize = 0;
    assert(all.skip(0) =~= all);
    assert(out@ + cache_scan(all.skip(0), id@, start, end, step, gsel) =~= cache_scan(all, id@, start, end, step, gsel));
    while i < cache.len()
        invariant
            all == cache@,
            i <= all.len(),
            step > 0,
            step == cache_step(itv),
            start == req.params.ts_range[0],
            end == req.params.ts_range[1],
            id@ == req.params.instance_id@,
            selection::<T>(item_view(req.params.item)) == Some(gsel),
            gsel.1 == sel.1@,
            gsel.2 == sel.2@,
            gsel.0 == sel.0,
            out@ + cache_scan(all.skip(i as int), id@, start, end, step, gsel) == cache_scan(
                all,
                id@,
                start,
                end,
                step,
                gsel,
            ),
        decreases all.len() - i,
    {
        let (ts, snap) = cache.entry_at(i);
        let ghost rest = all.skip(i as int);
        assert(rest[0] == all[i as int]);
        assert(rest.drop_first() =~= all.skip(i + 1));
        if ts > end {
            assert(cache_scan(rest, id@, start, end, step, gsel) =~= Seq::<(i32, i64)>::empty());
            assert(out@ + Seq::<(i32, i64)>::empty() =~= out@);
            return Ok(out);
        }
        let ghost before = out@;
        let ghost here = if rest[0].0 >= start && rest[0].0 % step == 0 && rest[0].1.contains_key(id@) {
            seq![(rest[0].0, reading::<T>(rest[0].1[id@], gsel))]
        } else {
            Seq::<(i32, i64)>::empty()
        };
        assert(cache_scan(rest, id@, start, end, step, gsel) == here + cache_scan(all.skip(i + 1), id@, start, end, step, gsel));
        if ts >= start && divisible(ts, step) {
            if let Some(v) = snap.get(id) {
                let x: i64 = match sel.0 {
                    Some(cb) => v.read(cb, sel.1, sel.2) as i64,
                    None => -1,
                };
                out.push((ts, x));
                assert(out@ == before + seq![(rest[0].0, reading::<T>(rest[0].1[id@], gsel))]);
            } else {
                assert(!rest[0].1.contains_key(id@));
            }
        }
        assert(out@ == before + here);
        assert(out@ + cache_scan(all.skip(i + 1), id@, start, end, step, gsel) =~= cache_scan(
            all,
            id@,
            start,
            end,
            step,
            gsel,
        ));
        i = i + 1;
    }
    assert(all.skip(i as int) =~= Seq::<(i32, Map<Seq<char>, T>)>::empty());
    assert(out@ + Seq::<(i32, i64)>::empty() =~= out@);
    Ok(out)
}


/// The sum of the values.
pub open spec fn sum_of(vals: Seq<i64>) -> int
    decreases vals.len(),
{
    if vals.len() == 0 {
        0
    } else {
        sum_of(vals.drop_last()) + vals.last()
    }
}

/// The least value; -1 for none.
pub open spec fn min_of(vals: Seq<i64>) -> i64
    decreases vals.len(),
{
    if vals.len() == 0 {
        -1i64
    } else if vals.len() == 1 {
        vals[0]
    } else {
        let m = min_of(vals.drop_last());
        if vals.last() < m {
            vals.last()
        } else {
            m
        }
    }
}

/// The greatest value; -1 for none.
pub open spec fn max_of(vals: Seq<i64>) -> i64
    decreases vals.len(),
{
    if vals.len() == 0 {
        -1i64
    } else if vals.len() == 1 {
        vals[0]
    } else {
        let m = max_of(vals.drop_last());
        if vals.last() > m {
            vals.last()
        } else {
            m
        }
    }
}

/// The sum in 64 bits, wrapping around as the sum of the release build does.
pub open spec fn wrapped_sum(vals: Seq<i64>) -> i64 {
    sum_of(vals) as i64
}

/// The reduction named `name` of the values, or `None` for an unknown name: "sum",
/// "avg" (the sum divided by the count, rounded toward zero; -1 for no value), "min"
/// and "max" (-1 for no value).
pub open spec fn reduction(name: Seq<char>, vals: Seq<i64>) -> Option<i64> {
    if name == "sum"@ {
        Some(wrapped_sum(vals))
    } else if name == "avg"@ {
        if vals.len() == 0 {
            Some(-1i64)
        } else {
            Some(div_trunc(wrapped_sum(vals) as int, vals.len() as int) as i64)
        }
    } else if name == "min"@ {
        Some(min_of(vals))
    } else if name == "max"@ {
        Some(max_of(vals))
    } else {
        None
    }
}

/// The reductions named by `names`, in order, or `None` when one name is unknown.
pub open spec fn reductions(names: Seq<Seq<char>>, vals: Seq<i64>) -> Option<Seq<i64>>
    decreases names.len(),
{
    if names.len() == 0 {
        Some(Seq::empty())
    } else {
        match (reductions(names.drop_last(), vals), reduction(names.last(), vals)) {
            (Some(rs), Some(r)) => Some(rs.push(r)),
            _ => None,
        }
    }
}

/// The least and the greatest of some values are among them and bound all of them.
pub proof fn lemma_min_max_bounds(vals: Seq<i64>)
    ensures
        vals.len() > 0 ==> vals.contains(min_of(vals)) && forall|k: int|
            0 <= k < vals.len() ==> min_of(vals) <= #[trigger] vals[k],
        vals.len() > 0 ==> vals.contains(max_of(vals)) && forall|k: int|
            0 <= k < vals.len() ==> max_of(vals) >= #[trigger] vals[k],
    decreases vals.len(),
{
    let n = vals.len();
    if n == 1 {
        assert(vals[0] == min_of(vals) && vals[0] == max_of(vals));
    } else if n > 1 {
        let init = vals.drop_last();
        lemma_min_max_bounds(init);
        let lo = min_of(init);
        let hi = max_of(init);
        let i = choose|i: int| 0 <= i < init.len() && init[i] == lo;
        let j = choose|j: int| 0 <= j < init.len() && init[j] == hi;
        assert(vals[i] == init[i] && vals[j] == init[j]);
        assert(vals[n - 1] == vals.last());
        assert forall|k: int| 0 <= k < n implies min_of(vals) <= #[trigger] vals[k] by {
            if k < n - 1 {
                assert(vals[k] == init[k]);
            }
        }
        assert forall|k: int| 0 <= k < n implies max_of(vals) >= #[trigger] vals[k] by {
            if k < n - 1 {
                assert(vals[k] == init[k]);
            }
        }
        if vals.last() < lo {
            assert(vals[n - 1] == min_of(vals));
        } else {
            assert(vals[i] == min_of(vals));
        }
        if vals.last() > hi {
            assert(vals[n - 1] == max_of(vals));
        } else {
            assert(vals[j] == max_of(vals));
        }
    }
}

/// Each reduction name reads its own reduction of the values: `sum` their sum (in 64
/// bits, wrapping), `avg` that sum over their count rounded toward zero, `min` the
/// least and `max` the greatest of them, each -1 for no value but the sum; any other
/// name is unknown.
pub proof fn lemma_reduction_names(vals: Seq<i64>, name: Seq<char>)
    ensures
        reduction("sum"@, vals) == Some(sum_of(vals) as i64),
        vals.len() > 0 ==> reduction("avg"@, vals) == Some(
            div_trunc((sum_of(vals) as i64) as int, vals.len() as int) as i64,
        ),
        vals.len() == 0 ==> reduction("avg"@, vals) == Some(-1i64) && reduction("min"@, vals)
            == Some(-1i64) && reduction("max"@, vals) == Some(-1i64),
        vals.len() > 0 ==> reduction("min"@, vals) is Some && vals.contains(
            reduction("min"@, vals)->0,
        ) && forall|k: int|
            0 <= k < vals.len() ==> reduction("min"@, vals)->0 <= #[trigger] vals[k],
        vals.len() > 0 ==> reduction("max"@, vals) is Some && vals.contains(
            reduction("max"@, vals)->0,
        ) && forall|k: int|
            0 <= k < vals.len() ==> reduction("max"@, vals)->0 >= #[trigger] vals[k],
        name != "sum"@ && name != "avg"@ && name != "min"@ && name != "max"@ ==> reduction(
            name,
            vals,
        ) is None,
{
    reveal_strlit("sum");
    reveal_strlit("avg");
    reveal_strlit("min");
    reveal_strlit("max");
    assert("avg"@[0] != "sum"@[0]);
    assert("min"@[0] != "sum"@[0]);
    assert("min"@[0] != "avg"@[0]);
    assert("max"@[0] != "sum"@[0]);
    assert("max"@[0] != "avg"@[0]);
    assert("max"@[1] != "min"@[1]);
    lemma_min_max_bounds(vals);
}

/// The reductions of a query come one per name, in the order named, each the
/// reduction of that name; they are had exactly when every name is known.
pub proof fn lemma_reductions_in_order(names: Seq<Seq<char>>, vals: Seq<i64>)
    ensures
        (forall|j: int| 0 <= j < names.len() ==> (#[trigger] reduction(names[j], vals)) is Some)
            <==> reductions(names, vals) is Some,
        reductions(names, vals) matches Some(rs) ==> rs.len() == names.len() && forall|j: int|
            0 <= j < names.len() ==> Some(#[trigger] rs[j]) == reduction(names[j], vals),
    decreases names.len(),
{
    let n = names.len();
    if n > 0 {
        let init = names.drop_last();
        lemma_reductions_in_order(init, vals);
        assert forall|j: int| 0 <= j < n - 1 implies names[j] == #[trigger] init[j] by {}
        if forall|j: int| 0 <= j < n ==> (#[trigger] reduction(names[j], vals)) is Some {
            assert forall|j: int| 0 <= j < init.len() implies (#[trigger] reduction(init[j], vals)) is Some by {
                assert(reduction(names[j], vals) is Some);
            }
            assert(reduction(names[n - 1], vals) is Some);
            assert(names.last() == names[n - 1]);
        } else {
            let j = choose|j: int| 0 <= j < n && (#[trigger] reduction(names[j], vals)) is None;
            if j < n - 1 {
                assert(reduction(init[j], vals) is None);
            } else {
                assert(names.last() == names[j]);
            }
        }
        if let Some(rs) = reductions(names, vals) {
            let rs0 = reductions(init, vals)->0;
            assert forall|j: int| 0 <= j < n implies Some(#[trigger] rs[j]) == reduction(
                names[j],
                vals,
            ) by {
                if j < n - 1 {
                    assert(rs[j] == rs0[j]);
                    assert(Some(rs0[j]) == reduction(init[j], vals));
                } else {
                    assert(names.last() == names[j]);
                }
            }
        }
    }
}

/// The answer to query `id` whose points are `pts`: the points as two arrays, or the
/// reductions `algo` asks for; "algo invalid" when it names an unknown one.
pub open spec fn respond_spec(algo: Option<Seq<Seq<char>>>, pts: Seq<(i32, i64)>, id: i32) -> Result<
    (Seq<char>, i32),
    (Seq<char>, i32),
> {
    let keys = pts.map_values(|p: (i32, i64)| p.0);
    let vals = pts.map_values(|p: (i32, i64)| p.1);
    match algo {
        None => Ok((json_series_text(keys, vals), id)),
        Some(names) => match reductions(names, vals) {
            Some(rs) => Ok((json_named_text(names, rs), id)),
            None => Err(("algo invalid"@, id)),
        },
    }
}

proof fn lemma_reductions_none(names: Seq<Seq<char>>, vals: Seq<i64>, j: int)
    requires
        0 <= j < names.len(),
        reduction(names[j], vals) is None,
    ensures
        reductions(names, vals) is None,
    decreases names.len(),
{
    if j < names.len() - 1 {
        lemma_reductions_none(names.drop_last(), vals, j);
    }
}

proof fn lemma_plain_names()
    ensures
        plain_json_text("sum"@),
        plain_json_text("avg"@),
        plain_json_text("min"@),
        plain_json_text("max"@),
{
    reveal_strlit("sum");
    reveal_strlit("avg");
    reveal_strlit("min");
    reveal_strlit("max");
}

/// The names a query asks to reduce by, as text.
pub open spec fn algo_view(algo: Option<Vec<String>>) -> Option<Seq<Seq<char>>> {
    match algo {
        Some(v) => Some(v@.map_values(|s: String| s@)),
        None => None,
    }
}

proof fn lemma_sum_step(vals: Seq<i64>, i: int)
    requires
        0 <= i < vals.len(),
    ensures
        sum_of(vals.take(i + 1)) == sum_of(vals.take(i)) + vals[i],
        min_of(vals.take(i + 1)) == (if i == 0 || vals[i] < min_of(vals.take(i)) {
            vals[i]
        } else {
            min_of(vals.take(i))
        }),
        max_of(vals.take(i + 1)) == (if i == 0 || vals[i] > max_of(vals.take(i)) {
            vals[i]
        } else {
            max_of(vals.take(i))
        }),
{
    assert(vals.take(i + 1).drop_last() =~= vals.take(i));
    if i == 0 {
        assert(vals.take(1) =~= seq![vals[0]]);
    }
}

/// The sum (wrapping), least and greatest of the values; -1 for least and greatest of none.
fn fold_values(vals: &Vec<i64>) -> (r: (i64, i64, i64))
    ensures
        r.0 == wrapped_sum(vals@),
        r.1 == min_of(vals@),
        r.2 == max_of(vals@),
{
    let mut sum: i128 = 0;
    let mut lo: i64 = -1;
    let mut hi: i64 = -1;
    let mut i: usize = 0;
    assert(vals@.take(0) =~= Seq::<i64>::empty());
    while i < vals.len()
        invariant
            i <= vals@.len(),
            sum == sum_of(vals@.take(i as int)),
            -(i * 0x8000_0000_0000_0000) <= sum <= i * 0x7fff_ffff_ffff_ffff,
            lo == min_of(vals@.take(i as int)),
            hi == max_of(vals@.take(i as int)),
        decreases vals@.len() - i,
    {
        let v = vals[i];
        proof {
            lemma_sum_step(vals@, i as int);
        }
        sum = sum + v as i128;
        if i == 0 || v < lo {
            lo = v;
        }
        if i == 0 || v > hi {
            hi = v;
        }
        i = i + 1;
    }
    assert(vals@.take(vals@.len() as int) =~= vals@);
    (sum as i64, lo, hi)
}

/// The answer to query `id` whose points are `pts`.
pub fn respond(algo: &Option<Vec<String>>, pts: &Vec<(i32, i64)>, id: i32) -> (r: Result<
    (String, i32),
    (String, i32),
>)
    ensures
        match respond_spec(algo_view(*algo), pts@, id) {
            Ok((text, n)) => r matches Ok((s, m)) && s@ == text && m == n,
            Err((text, n)) => r matches Err((s, m)) && s@ == text && m == n,
        },
{
    let mut keys: Vec<i32> = Vec::new();
    let mut vals: Vec<i64> = Vec::new();
    let mut i: usize = 0;
    while i < pts.len()
        invariant
            i <= pts@.len(),
            keys@ == pts@.take(i as int).map_values(|p: (i32, i64)| p.0),
            vals@ == pts@.take(i as int).map_values(|p: (i32, i64)| p.1),
        decreases pts@.len() - i,
    {
        keys.push(pts[i].0);
        vals.push(pts[i].1);
        assert(keys@ =~= pts@.take(i + 1).map_values(|p: (i32, i64)| p.0));
        assert(vals@ =~= pts@.take(i + 1).map_values(|p: (i32, i64)| p.1));
        i = i + 1;
    }
    assert(pts@.take(pts@.len() as int) =~= pts@);
    match algo {
        None => Ok((json::series_json(&keys, &vals), id)),
        Some(names) => {
            let (sum, lo, hi) = fold_values(&vals);
            let ghost nv = names@.map_values(|s: String| s@);
            let mut outn: Vec<String> = Vec::new();
            let mut outv: Vec<i64> = Vec::new();
            let mut j: usize = 0;
            proof {
                lemma_plain_names();
            }
            assert(nv.take(0) =~= Seq::<Seq<char>>::empty());
            while j < names.len()
                invariant
                    j <= names@.len(),
                    nv == names@.map_values(|s: String| s@),
                    algo_view(*algo) == Some(nv),
                    sum == wrapped_sum(vals@),
                    vals@ == pts@.map_values(|p: (i32, i64)| p.1),
                    vals@.len() == pts@.len(),
                    plain_json_text("sum"@),
                    plain_json_text("avg"@),
                    plain_json_text("min"@),
                    plain_json_text("max"@),
                    lo == min_of(vals@),
                    hi == max_of(vals@),
                    reductions(nv.take(j as int), vals@) == Some(outv@),
                    outn@.map_values(|s: String| s@) == nv.take(j as int),
                    forall|k: int| 0 <= k < outn@.len() ==> plain_json_text(#[trigger] outn@[k]@),
                decreases names@.len() - j,
            {
                assert(nv.take(j + 1).drop_last() =~= nv.take(j as int));
                assert(nv.take(j + 1).last() == names@[j as int]@);
                let x = names[j].as_str();
                let v: i64;
                if str_eq(x, "sum") {
                    v = sum;
                } else if str_eq(x, "avg") {
                    if vals.len() == 0 {
                        v = -1;
                    } else {
                        v = ((sum as i128) / (vals.len() as i128)) as i64;
                    }
                } else if str_eq(x, "min") {
                    v = lo;
                } else if str_eq(x, "max") {
                    v = hi;
                } else {
                    proof {
                        lemma_reductions_none(nv, vals@, j as int);
                    }
                    return Err(("algo invalid".to_owned(), id));
                }
                outn.push(x.to_owned());
                outv.push(v);
                assert(outn@.map_values(|s: String| s@) =~= nv.take(j + 1));
                j = j + 1;
            }
            assert(nv.take(names@.len() as int) =~= nv);
            Ok((json::named_json(&outn, &outv), id))
        },
    }
}

/// The path into a stored snapshot that an item names: `'{instance,item}'` or
/// `'{instance,submethod,device,item}'`; `None` when the item has neither form.
pub open spec fn query_filter(
    id: Seq<char>,
    item: (Seq<char>, Option<Seq<char>>, Option<Seq<char>>),
) -> Option<Seq<char>> {
    match item {
        (name, None, None) => Some("'{"@ + id + ","@ + name + "}'"@),
        (sub, Some(dev), Some(it)) => Some("'{"@ + id + ","@ + sub + ","@ + dev + ","@ + it + "}'"@),
        _ => None,
    }
}

/// The database query for the points at `filter` in table `method`, stamped from
/// `start` to `end`, of the snapshots that hold instance `id` (a missing item, device or
/// sub-item of an instance then gives a null value, not a missing row), keeping stamps
/// that are multiples of `itv` when one is given.
pub open spec fn query_sql(
    method: Seq<char>,
    id: Seq<char>,
    filter: Seq<char>,
    start: i32,
    end: i32,
    itv: Option<i32>,
) -> Seq<char> {
    "SELECT array_to_json(array_agg(json_build_array(ts, sv#>"@ + filter + ")))::text FROM "@
        + method + " WHERE ts >= "@ + spec_decimal(start as int) + " AND ts <= "@ + spec_decimal(
        end as int,
    ) + " AND sv ? '"@ + id + "' "@ + match itv {
        Some(i) => "AND (ts % "@ + spec_decimal(i as int) + ") = 0"@,
        None => Seq::<char>::empty(),
    }
}

/// The database query for the points of query `req` stamped from its start to `end`;
/// `None` when its item has neither form.
pub fn db_sql(req: &Req, end: i32, itv: Option<i32>) -> (r: Option<String>)
    ensures
        match query_filter(req.params.instance_id@, item_view(req.params.item)) {
            Some(f) => r matches Some(s) && s@ == query_sql(
                req.method@,
                req.params.instance_id@,
                f,
                req.params.ts_range[0],
                end,
                itv,
            ),
            None => r is None,
        },
{
    let id = req.params.instance_id.as_str();
    let mut filter: Vec<char> = Vec::new();
    match &req.params.item {
        (name, None, None) => {
            push_str(&mut filter, "'{");
            push_str(&mut filter, id);
            push_str(&mut filter, ",");
            push_str(&mut filter, name.as_str());
            push_str(&mut filter, "}'");
        },
        (sub, Some(dev), Some(it)) => {
            push_str(&mut filter, "'{");
            push_str(&mut filter, id);
            push_str(&mut filter, ",");
            push_str(&mut filter, sub.as_str());
            push_str(&mut filter, ",");
            push_str(&mut filter, dev.as_str());
            push_str(&mut filter, ",");
            push_str(&mut filter, it.as_str());
            push_str(&mut filter, "}'");
        },
        _ => {
            return None;
        },
    }
    let ghost f = filter@;
    let mut q: Vec<char> = Vec::new();
    push_str(&mut q, "SELECT array_to_json(array_agg(json_build_array(ts, sv#>");
    push_chars(&mut q, &filter);
    push_str(&mut q, ")))::text FROM ");
    push_str(&mut q, req.method.as_str());
    push_str(&mut q, " WHERE ts >= ");
    push_decimal(&mut q, req.params.ts_range[0] as i128);
    push_str(&mut q, " AND ts <= ");
    push_decimal(&mut q, end as i128);
    push_str(&mut q, " AND sv ? '");
    push_str(&mut q, id);
    push_str(&mut q, "' ");
    match itv {
        Some(i) => {
            push_str(&mut q, "AND (ts % ");
            push_decimal(&mut q, i as i128);
            push_str(&mut q, ") = 0");
        },
        None => {},
    }
    assert(q@ =~= query_sql(req.method@, req.params.instance_id@, f, req.params.ts_range[0], end, itv));
    Some(to_string(&q))
}

/// What the database part of a query came to.
pub enum DbReply {
    /// No connection could be had from the pool.
    PoolBusy,
    /// A connection was had, but there was no query to run.
    NoQuery,
    /// The query failed.
    QueryFailed,
    /// The query ran: the text of its one value, `None` when it gave no row or a null.
    Rows(Option<String>),
}

/// The points a database reply gives, or the error it is answered with.
pub open spec fn db_part(reply: DbReply) -> Result<Seq<(i32, i64)>, Seq<char>> {
    match reply {
        DbReply::PoolBusy => Err("db_conn_pool busy"@),
        DbReply::NoQuery => Err("invalid item"@),
        DbReply::QueryFailed => Err("db query err"@),
        DbReply::Rows(None) => Ok(Seq::empty()),
        DbReply::Rows(Some(t)) => match json_rows(t@) {
            Some(rows) => Ok(db_points(rows)),
            None => Err("server err"@),
        },
    }
}

/// The points a database reply gives, or the error it is answered with.
pub fn db_points_of(reply: &DbReply) -> (r: Result<Vec<(i32, i64)>, String>)
    ensures
        match db_part(*reply) {
            Ok(pts) => r matches Ok(v) && v@ == pts,
            Err(e) => r matches Err(m) && m@ == e,
        },
{
    match reply {
        DbReply::PoolBusy => Err("db_conn_pool busy".to_owned()),
        DbReply::NoQuery => Err("invalid item".to_owned()),
        DbReply::QueryFailed => Err("db query err".to_owned()),
        DbReply::Rows(None) => Ok(Vec::new()),
        DbReply::Rows(Some(t)) => match json::parse_rows(t.as_str()) {
            Some(rows) => Ok(points_of(&rows)),
            None => Err("server err".to_owned()),
        },
    }
}

/// The stamp up to which a query's points come from the database, when any do and the
/// range up to it is not empty.
pub open spec fn db_range(p: Plan, start: i32, end: i32) -> Option<i32> {
    let e = match p {
        Plan::Db => Some(end),
        Plan::Split { db_end } => Some(db_end),
        Plan::Cache => None,
    };
    match e {
        Some(x) => if start > x {
            None
        } else {
            Some(x)
        },
        None => None,
    }
}

/// What a step of answering a query comes to.
pub enum Outcome {
    /// The answer: the result text and the query id, or an error text and the query id.
    Answer(Result<(String, i32), (String, i32)>),
    /// The answer needs the database: take a connection from the pool and run `sql`;
    /// `None` when there is nothing to run.
    AskDb { sql: Option<String> },
}

/// The points of query `req` before any reduction, given the cached snapshots and, where
/// the database part is not empty, the database reply: the database points, then the
/// cached ones; or the error text.
pub open spec fn answer_points<T: Gauge>(
    req: Req,
    cache: Seq<(i32, Map<Seq<char>, T>)>,
    reply: Option<DbReply>,
) -> Result<Seq<(i32, i64)>, Seq<char>> {
    let itv = aligned_interval(req.params.interval);
    let start = req.params.ts_range[0];
    let end = req.params.ts_range[1];
    let front = if cache.len() > 0 {
        Some(cache[0].0)
    } else {
        None
    };
    let p = plan_of(front, start, end);
    let db = match db_range(p, start, end) {
        Some(_) => db_part(reply.unwrap()),
        None => Ok(Seq::empty()),
    };
    let cached = match p {
        Plan::Db => Some(Seq::empty()),
        _ => cache_points::<T>(
            cache,
            item_view(req.params.item),
            req.params.instance_id@,
            start,
            end,
            itv,
        ),
    };
    match db {
        Err(e) => Err(e),
        Ok(dp) => match cached {
            None => Err("params invalid"@),
            Some(cp) => Ok(dp + cp),
        },
    }
}

/// The answer to query `req` given the cached snapshots and, where the database part is
/// not empty, the database reply: its points, as a series or reduced as `algo` asks.
pub open spec fn answer_spec<T: Gauge>(
    req: Req,
    cache: Seq<(i32, Map<Seq<char>, T>)>,
    reply: Option<DbReply>,
) -> Result<(Seq<char>, i32), (Seq<char>, i32)> {
    match answer_points::<T>(req, cache, reply) {
        Err(e) => Err((e, req.id)),
        Ok(pts) => respond_spec(algo_view(req.params.algo), pts, req.id),
    }
}

/// The stamps of points.
pub open spec fn keys_of(pts: Seq<(i32, i64)>) -> Seq<i32> {
    pts.map_values(|p: (i32, i64)| p.0)
}

/// The values of points.
pub open spec fn values_of(pts: Seq<(i32, i64)>) -> Seq<i64> {
    pts.map_values(|p: (i32, i64)| p.1)
}

/// Asking for reductions changes which points a query reads nothing about: the same
/// query without them answers its points as a series of stamps and values, and with
/// names `L` it answers, for each name in order, the sum, the average (rounded toward
/// zero), the least or the greatest of those values (-1 for the last three when there is
/// none), or "algo invalid" for an unknown name; an error is the same either way.
pub proof fn lemma_reductions_of_answer<T: Gauge>(
    plain: Req,
    reduced: Req,
    names: Seq<Seq<char>>,
    cache: Seq<(i32, Map<Seq<char>, T>)>,
    reply: Option<DbReply>,
)
    requires
        plain.method == reduced.method,
        plain.id == reduced.id,
        plain.params.item == reduced.params.item,
        plain.params.instance_id == reduced.params.instance_id,
        plain.params.ts_range == reduced.params.ts_range,
        plain.params.interval == reduced.params.interval,
        plain.params.algo is None,
        algo_view(reduced.params.algo) == Some(names),
    ensures
        answer_points::<T>(plain, cache, reply) == answer_points::<T>(reduced, cache, reply),
        match answer_points::<T>(plain, cache, reply) {
            Ok(pts) => {
                &&& answer_spec::<T>(plain, cache, reply) == Ok::<(Seq<char>, i32), (Seq<char>, i32)>(
                    (json_series_text(keys_of(pts), values_of(pts)), plain.id),
                )
                &&& answer_spec::<T>(reduced, cache, reply) == match reductions(names, values_of(pts)) {
                    Some(rs) => Ok((json_named_text(names, rs), plain.id)),
                    None => Err(("algo invalid"@, plain.id)),
                }
            },
            Err(e) => answer_spec::<T>(plain, cache, reply) == Err::<(Seq<char>, i32), (Seq<char>, i32)>(
                (e, plain.id),
            ) && answer_spec::<T>(reduced, cache, reply) == Err::<(Seq<char>, i32), (Seq<char>, i32)>(
                (e, plain.id),
            ),
        },
{
}

/// A query split between the database and the cache answers the database points, then
/// the cached points, as one series: two arrays, never a null pair.
pub proof fn lemma_split_answer<T: Gauge>(
    req: Req,
    cache: Seq<(i32, Map<Seq<char>, T>)>,
    reply: DbReply,
    db_end: i32,
    dp: Seq<(i32, i64)>,
    cp: Seq<(i32, i64)>,
)
    requires
        cache.len() > 0,
        plan_of(Some(cache[0].0), req.params.ts_range[0], req.params.ts_range[1]) == (Plan::Split {
            db_end,
        }),
        db_part(reply) == Ok::<Seq<(i32, i64)>, Seq<char>>(dp),
        cache_points::<T>(
            cache,
            item_view(req.params.item),
            req.params.instance_id@,
            req.params.ts_range[0],
            req.params.ts_range[1],
            aligned_interval(req.params.interval),
        ) == Some(cp),
        req.params.algo is None,
    ensures
        answer_points::<T>(req, cache, Some(reply)) == Ok::<Seq<(i32, i64)>, Seq<char>>(dp + cp),
        answer_spec::<T>(req, cache, Some(reply)) == Ok::<(Seq<char>, i32), (Seq<char>, i32)>(
            (json_series_text(keys_of(dp + cp), values_of(dp + cp)), req.id),
        ),
{
    lemma_plan(Some(cache[0].0), req.params.ts_range[0], req.params.ts_range[1]);
}

/// Answers query `req` (of a method whose snapshots `cache` holds).
///
/// The interval asked for is first aligned to the cache interval. The points come from
/// the database when nothing is cached or everything cached is newer than the range;
/// from the cache when the oldest cached snapshot is within one cache interval of the
/// start; else from the database up to one cache interval before the oldest cached
/// snapshot, and from the cache after. Without `reply`, a query whose database part is
/// not empty gets `AskDb`, with the database query to run; called again with the reply,
/// it gets its answer.
pub fn worker<T: Gauge>(req: &Req, cache: &Cache<T>, reply: Option<DbReply>) -> (o: Outcome)
    ensures
        ({
            let itv = aligned_interval(req.params.interval);
            let start = req.params.ts_range[0];
            let end = req.params.ts_range[1];
            let front = if cache@.len() > 0 {
                Some(cache@[0].0)
            } else {
                None
            };
            match db_range(plan_of(front, start, end), start, end) {
                Some(e) if reply is None => o matches Outcome::AskDb { sql } && match query_filter(
                    req.params.instance_id@,
                    item_view(req.params.item),
                ) {
                    Some(f) => sql matches Some(q) && q@ == query_sql(
                        req.method@,
                        req.params.instance_id@,
                        f,
                        start,
                        e,
                        Some(itv),
                    ),
                    None => sql is None,
                },
                _ => match answer_spec::<T>(*req, cache@, reply) {
                    Ok((text, n)) => o matches Outcome::Answer(Ok((s, m))) && s@ == text && m
                        == n,
                    Err((text, n)) => o matches Outcome::Answer(Err((s, m))) && s@ == text && m
                        == n,
                },
            }
        }),
{
    let itv = align_interval(req.params.interval);
    let start = req.params.ts_range[0];
    let end = req.params.ts_range[1];
    let p = plan(cache.front_ts(), start, end);
    let range: Option<i32> = match p {
        Plan::Db => if start > end { None } else { Some(end) },
        Plan::Split { db_end } => if start > db_end { None } else { Some(db_end) },
        Plan::Cache => None,
    };
    let db: Vec<(i32, i64)> = match range {
        Some(e) => match &reply {
            None => {
                return Outcome::AskDb { sql: db_sql(req, e, Some(itv)) };
            },
            Some(r) => match db_points_of(r) {
                Ok(v) => v,
                Err(m) => {
                    return Outcome::Answer(Err((m, req.id)));
                },
            },
        },
        None => Vec::new(),
    };
    let mut pts = db;
    match p {
        Plan::Db => {},
        _ => match cache_worker(req, itv, cache) {
            Ok(mut c) => {
                pts.append(&mut c);
            },
            Err(m) => {
                return Outcome::Answer(Err((m, req.id)));
            },
        },
    }
    Outcome::Answer(respond(&req.params.algo, &pts, req.id))
}
} // verus!
