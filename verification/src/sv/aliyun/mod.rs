//! The Aliyun collector: readings come in as datapoints, land in a timeline of
//! snapshots, and the snapshots whose stamps fall on the cache interval are kept
//! in an in-memory cache that the query service reads.
use std::collections::VecDeque;
use vstd::prelude::*;

use crate::json::{elements, elements_of, get, json_of, member, opt_text, parse_json, text, text_of, u64_of, unsigned, Json};
use crate::strmap::StrMap;

pub mod ecs;
pub mod slb;
pub mod rds;
pub mod redis;
pub mod memcache;
pub mod mongodb;

mod mod_include;
pub mod sign;
pub mod schedule;

pub use mod_include::{
    argv_new_base, base_params, below_keep, below_keep_spec, cursor_params, keep_of, keep_of_spec,
    mem_available_pattern, mem_insufficient, mem_total_pattern, page_step, pair,
    pair_view, pairs_view, regions_argv, regions_of, regions_of_spec, regions_params, PageReply,
    PageStep, texts_at, region_ids, region_ids_of, regions_answer, get_region_of, page_reply_of,
    page_reply_spec, fetch_step, fetch_step_spec, FetchAction, FetchEvent, ATTEMPTS, copy_params,
};

verus! {

/// Length of one collection round, in milliseconds.
pub const INTERVAL: u64 = 300000;

/// Spacing of cached snapshots, in seconds; the same span as `INTERVAL`.
pub const CACHEINTERVAL: i32 = 300;

/// One reading out of a `QueryMetricList` answer, with the fields the collector
/// reads; a field is `None` where the answer lacks it or holds another JSON type.
pub struct Datapoint {
    /// `instanceId`, a JSON string.
    pub instance_id: Option<String>,
    /// `timestamp` in milliseconds, a JSON unsigned integer.
    pub timestamp: Option<u64>,
    /// `device`, a JSON string (disk readings).
    pub device: Option<String>,
    /// `IP`, a JSON string (network readings).
    pub ip: Option<String>,
    /// `state`, a JSON string (TCP readings).
    pub state: Option<String>,
    /// `Average` when it is a JSON unsigned integer.
    pub average: Option<u64>,
    /// `Average` read as a floating-point number and turned into an integer by the
    /// metric's own scaling rule (for instance tenths of a percent).
    pub scaled: Option<i32>,
}

/// Whether `d` is the reading that entry `e` of a `QueryMetricList` answer gives: each
/// field the string or unsigned integer member of that name, `None` where the member is
/// missing or of another type; the scaled average is left for the metric to fill.
pub open spec fn point_from(d: Datapoint, e: Json) -> bool {
    &&& opt_text(d.instance_id) == text_of(member(e, "instanceId"@))
    &&& d.timestamp == u64_of(member(e, "timestamp"@))
    &&& opt_text(d.device) == text_of(member(e, "device"@))
    &&& opt_text(d.ip) == text_of(member(e, "IP"@))
    &&& opt_text(d.state) == text_of(member(e, "state"@))
    &&& d.average == u64_of(member(e, "Average"@))
    &&& d.scaled is None
}

/// The entries of `Datapoints` up to the first null, of an answer of bytes `b`; none
/// when the bytes are not JSON.
pub open spec fn answer_points(b: Seq<u8>) -> Seq<Json> {
    match json_of(b) {
        Some(v) => elements(member(v, "Datapoints"@)),
        None => Seq::empty(),
    }
}

/// The readings of a `QueryMetricList` answer of bytes `b`, one per entry of
/// `Datapoints` up to the first null.
pub fn datapoints_of(b: &[u8]) -> (r: Vec<Datapoint>)
    ensures
        r@.len() == answer_points(b@).len(),
        forall|i: int| 0 <= i < r@.len() ==> point_from(#[trigger] r@[i], answer_points(b@)[i]),
{
    let v = match parse_json(b) {
        Some(v) => v,
        None => Json::Null,
    };
    let items: Vec<&Json> = match get(&v, "Datapoints") {
        Some(x) => elements_of(x),
        None => Vec::new(),
    };
    let ghost e = answer_points(b@);
    assert(items@.len() == e.len());
    let mut out: Vec<Datapoint> = Vec::new();
    let mut i: usize = 0;
    while i < items.len()
        invariant
            e == answer_points(b@),
            i <= items@.len(),
            items@.len() == e.len(),
            forall|k: int| 0 <= k < items@.len() ==> *(#[trigger] items@[k]) == e[k],
            out@.len() == i,
            forall|k: int| 0 <= k < i ==> point_from(#[trigger] out@[k], e[k]),
        decreases items@.len() - i,
    {
        let p = items[i];
        let d = Datapoint {
            instance_id: text(get(p, "instanceId")),
            timestamp: unsigned(get(p, "timestamp")),
            device: text(get(p, "device")),
            ip: text(get(p, "IP")),
            state: text(get(p, "state")),
            average: unsigned(get(p, "Average")),
            scaled: None,
        };
        assert(point_from(d, e[i as int]));
        out.push(d);
        i = i + 1;
    }
    out
}

/// A snapshot that takes readings by a rule.
pub trait Sample: View + Sized {
    type Rule;

    /// The snapshot after reading `p` by `rule`.
    spec fn apply_spec(v: Self::V, rule: Self::Rule, p: Datapoint) -> Self::V;

    fn apply(&mut self, rule: &Self::Rule, p: &Datapoint)
        ensures
            final(self)@ == Self::apply_spec(old(self)@, *rule, *p),
    ;
}

/// A snapshot type whose values the query service can read.
pub trait Gauge: Sized {
    /// Which reading a request asks for.
    type Cb: Copy;

    /// The reading that an item name selects, if any.
    spec fn cb_spec(name: Seq<char>) -> Option<Self::Cb>;

    /// The reading `cb` of this snapshot for device `dev` and sub-item `item`.
    spec fn read_spec(&self, cb: Self::Cb, dev: Seq<char>, item: Seq<char>) -> i32;

    fn callback(name: &str) -> (r: Option<Self::Cb>)
        ensures
            r == Self::cb_spec(name@),
    ;

    fn read(&self, cb: Self::Cb, dev: &str, item: &str) -> (r: i32)
        ensures
            r == self.read_spec(cb, dev@, item@),
    ;
}

/// `ts` moved down to a multiple of `period`.
pub open spec fn align_down(ts: u64, period: u64) -> int {
    (ts / period * period) as int
}

/// `ts` moved down to a multiple of `period`.
fn align(ts: u64, period: u64) -> (a: u64)
    requires
        period > 0,
    ensures
        a == align_down(ts, period),
{
    assert(ts / period * period <= ts) by (nonlinear_arith)
        requires
            period > 0,
    ;
    ts / period * period
}

proof fn lemma_positive_quotient(d: int, p: int)
    requires
        d > 0,
        p > 0,
        d % p == 0,
    ensures
        d / p >= 1,
{
    assert(d == (d / p) * p) by (nonlinear_arith)
        requires
            d % p == 0,
            p > 0,
    ;
    assert(d / p >= 1) by (nonlinear_arith)
        requires
            d == (d / p) * p,
            d > 0,
            p > 0,
    ;
}

/// The stamp of slot `i` of a timeline that starts after `base`.
pub open spec fn stamp_of(base: u64, period: u64, i: int) -> int {
    base + (i + 1) * period
}

/// The slot of a timeline of `n` slots that a reading taken at `ts` falls in: the one
/// whose stamp is `ts` moved down to a multiple of `period`.
pub open spec fn slot_for(base: u64, period: u64, n: nat, ts: u64) -> Option<int> {
    let a = align_down(ts, period);
    if a > base && (a - base) % (period as int) == 0 && (a - base) / (period as int) <= n {
        Some((a - base) / (period as int) - 1)
    } else {
        None
    }
}

/// A slot is found exactly when a stamp equals the moved-down reading time.
pub proof fn lemma_slot_for(base: u64, period: u64, n: nat, ts: u64, i: int)
    requires
        period > 0,
        0 <= i < n,
    ensures
        slot_for(base, period, n, ts) == Some(i) <==> stamp_of(base, period, i) == align_down(
            ts,
            period,
        ),
{
    let p = period as int;
    let a = align_down(ts, period);
    if stamp_of(base, period, i) == a {
        assert(a - base == (i + 1) * p);
        assert((a - base) % p == 0 && (a - base) / p == i + 1) by (nonlinear_arith)
            requires
                a - base == (i + 1) * p,
                p > 0,
                i >= 0,
        ;
    }
    if slot_for(base, period, n, ts) == Some(i) {
        assert(a - base == ((a - base) / p) * p) by (nonlinear_arith)
            requires
                (a - base) % p == 0,
                p > 0,
        ;
    }
}

/// The snapshots of a round lie within the round: with `INTERVAL / period` slots, every
/// stamp is after the round's start and at most one interval after it, the last one
/// exactly there when the period divides the interval (the provider's time spans are
/// open at the start and closed at the end).
pub proof fn lemma_round_stamps(base: u64, period: u64, i: int)
    requires
        period > 0,
        0 <= i < INTERVAL / period,
    ensures
        base < stamp_of(base, period, i) <= base + INTERVAL,
        INTERVAL % period == 0 && i == INTERVAL / period - 1 ==> stamp_of(base, period, i) == base
            + INTERVAL,
{
    let p = period as int;
    let n = (INTERVAL / period) as int;
    assert((i + 1) * p <= n * p) by (nonlinear_arith)
        requires
            i + 1 <= n,
            p > 0,
    ;
    assert(n * p <= INTERVAL) by (nonlinear_arith)
        requires
            n == INTERVAL as int / p,
            p > 0,
    ;
    assert((i + 1) * p >= p) by (nonlinear_arith)
        requires
            i >= 0,
            p > 0,
    ;
    if INTERVAL % period == 0 && i == n - 1 {
        assert(n * p == INTERVAL) by (nonlinear_arith)
            requires
                n == INTERVAL as int / p,
                INTERVAL as int % p == 0,
                p > 0,
        ;
    }
}

/// The timeline's snapshots after one reading.
pub open spec fn ingest_step<S: Sample>(
    base: u64,
    period: u64,
    rule: S::Rule,
    slots: Seq<S::V>,
    p: Datapoint,
) -> Seq<S::V> {
    match p.timestamp {
        Some(ts) => match slot_for(base, period, slots.len(), ts) {
            Some(i) => slots.update(i, S::apply_spec(slots[i], rule, p)),
            None => slots,
        },
        None => slots,
    }
}

/// Readings that fall in no slot of the round, having no time or a time outside it,
/// leave the snapshots as they are.
pub proof fn lemma_ingest_outside<S: Sample>(
    base: u64,
    period: u64,
    rule: S::Rule,
    views: Seq<S::V>,
    points: Seq<Datapoint>,
)
    requires
        forall|k: int|
            0 <= k < points.len() ==> match (#[trigger] points[k]).timestamp {
                Some(ts) => slot_for(base, period, views.len(), ts) is None,
                None => true,
            },
    ensures
        points.fold_left(
            views,
            |acc: Seq<S::V>, p: Datapoint| ingest_step::<S>(base, period, rule, acc, p),
        ) == views,
    decreases points.len(),
{
    if points.len() > 0 {
        let rest = points.drop_last();
        assert forall|k: int| 0 <= k < rest.len() implies match (#[trigger] rest[k]).timestamp {
            Some(ts) => slot_for(base, period, views.len(), ts) is None,
            None => true,
        } by {
            assert(rest[k] == points[k]);
        }
        lemma_ingest_outside::<S>(base, period, rule, views, rest);
        assert(points.last() == points[points.len() - 1]);
    }
}

/// The snapshots of one collection round, stamped `base + period`, `base + 2 * period`, ...
pub struct Timeline<S> {
    base: u64,
    period: u64,
    slots: Vec<S>,
}

impl<S> Timeline<S> {
    #[verifier::type_invariant]
    spec fn inv(self) -> bool {
        &&& self.period > 0
        &&& self.base + self.slots.len() * self.period <= u64::MAX
    }

    pub closed spec fn base_spec(self) -> u64 {
        self.base
    }

    pub closed spec fn period_spec(self) -> u64 {
        self.period
    }

    pub closed spec fn slots_spec(self) -> Seq<S> {
        self.slots@
    }

    /// A timeline whose slots are `slots`, the first stamped `base + period`.
    pub fn from_slots(base: u64, period: u64, slots: Vec<S>) -> (t: Self)
        requires
            period > 0,
            base + slots.len() * period <= u64::MAX,
        ensures
            t.base_spec() == base,
            t.period_spec() == period,
            t.slots_spec() == slots@,
    {
        Timeline { base, period, slots }
    }

    /// The number of slots.
    pub fn len(&self) -> (n: usize)
        ensures
            n == self.slots_spec().len(),
    {
        self.slots.len()
    }

    /// The stamp of slot `i`.
    pub fn stamp(&self, i: usize) -> (ts: u64)
        requires
            i < self.slots_spec().len(),
        ensures
            ts == stamp_of(self.base_spec(), self.period_spec(), i as int),
    {
        proof {
            use_type_invariant(self);
            assert((i + 1) * self.period <= self.slots@.len() * self.period) by (nonlinear_arith)
                requires
                    i + 1 <= self.slots@.len(),
            ;
        }
        self.base + (i as u64 + 1) * self.period
    }

    /// Slot `i`.
    pub fn slot(&self, i: usize) -> (s: &S)
        requires
            i < self.slots_spec().len(),
        ensures
            *s == self.slots_spec()[i as int],
    {
        &self.slots[i]
    }

    /// The slots, handed over.
    pub fn into_slots(self) -> (v: Vec<S>)
        ensures
            v@ == self.slots_spec(),
    {
        self.slots
    }

    /// The snapshots with their stamps, in order, handed over.
    pub fn into_stamped(self) -> (v: Vec<(u64, S)>)
        ensures
            v@.len() == self.slots_spec().len(),
            forall|i: int|
                0 <= i < v@.len() ==> (#[trigger] v@[i]).0 == stamp_of(
                    self.base_spec(),
                    self.period_spec(),
                    i,
                ) && v@[i].1 == self.slots_spec()[i],
    {
        proof {
            use_type_invariant(&self);
        }
        let ghost all = self.slots@;
        let base = self.base;
        let period = self.period;
        let mut rest = self.slots;
        let mut out: Vec<(u64, S)> = Vec::new();
        let n = rest.len();
        while rest.len() > 0
            invariant
                period > 0,
                base + all.len() * period <= u64::MAX,
                n == all.len(),
                out@.len() + rest@.len() == n,
                rest@ == all.skip(out@.len() as int),
                forall|i: int|
                    0 <= i < out@.len() ==> (#[trigger] out@[i]).0 == stamp_of(base, period, i)
                        && out@[i].1 == all[i],
            decreases rest@.len(),
        {
            let k = out.len();
            proof {
                assert((k + 1) * period <= all.len() * period) by (nonlinear_arith)
                    requires
                        k + 1 <= all.len(),
                ;
            }
            let s = rest.remove(0);
            assert(rest@ =~= all.skip(k + 1));
            out.push((base + (k as u64 + 1) * period, s));
        }
        out
    }

    /// The slot that a reading taken at `ts` falls in.
    pub fn slot_index(&self, ts: u64) -> (r: Option<usize>)
        ensures
            r matches Some(i) ==> slot_for(
                self.base_spec(),
                self.period_spec(),
                self.slots_spec().len(),
                ts,
            ) == Some(i as int),
            r is None ==> slot_for(
                self.base_spec(),
                self.period_spec(),
                self.slots_spec().len(),
                ts,
            ) is None,
    {
        proof {
            use_type_invariant(self);
        }
        let a = align(ts, self.period);
        if a > self.base && (a - self.base) % self.period == 0 {
            let k = (a - self.base) / self.period;
            proof {
                lemma_positive_quotient((a - self.base) as int, self.period as int);
            }
            if k <= self.slots.len() as u64 {
                return Some((k - 1) as usize);
            }
        }
        None
    }
}

impl<S: Sample> Timeline<S> {
    /// The views of the snapshots.
    pub closed spec fn views(self) -> Seq<S::V> {
        self.slots@.map_values(|s: S| s@)
    }

    /// Takes each reading of `points`, in order, into the slot it falls in, by `rule`;
    /// readings without a time or outside the round are passed over.
    pub fn ingest(&mut self, rule: &S::Rule, points: &Vec<Datapoint>)
        ensures
            final(self).base_spec() == old(self).base_spec(),
            final(self).period_spec() == old(self).period_spec(),
            final(self).views() == points@.fold_left(
                old(self).views(),
                |acc: Seq<S::V>, p: Datapoint|
                    ingest_step::<S>(
                        old(self).base_spec(),
                        old(self).period_spec(),
                        *rule,
                        acc,
                        p,
                    ),
            ),
    {
        proof {
            use_type_invariant(&*self);
        }
        let ghost base = self.base;
        let ghost period = self.period;
        let ghost f = |acc: Seq<S::V>, p: Datapoint| ingest_step::<S>(base, period, *rule, acc, p);
        let ghost start = self.views();
        let mut slots: Vec<S> = Vec::new();
        proof {
            assert(0 * self.period == 0) by (nonlinear_arith);
        }
        std::mem::swap(&mut slots, &mut self.slots);
        assert(points@.take(0) =~= Seq::<Datapoint>::empty());
        let mut i: usize = 0;
        while i < points.len()
            invariant
                i <= points.len(),
                self.base == base,
                self.period == period,
                period > 0,
                slots@.len() == old(self).slots@.len(),
                slots@.map_values(|s: S| s@) == points@.take(i as int).fold_left(start, f),
                f == (|acc: Seq<S::V>, p: Datapoint| ingest_step::<S>(base, period, *rule, acc, p)),
            decreases points.len() - i,
        {
            let p = &points[i];
            let ghost before = slots@.map_values(|s: S| s@);
            assert(points@.take(i + 1).drop_last() =~= points@.take(i as int));
            if let Some(ts) = p.timestamp {
                let a = align(ts, self.period);
                if a > self.base && (a - self.base) % self.period == 0 {
                    let k = (a - self.base) / self.period;
                    proof {
                        lemma_positive_quotient((a - self.base) as int, self.period as int);
                    }
                    if k <= slots.len() as u64 {
                        let j = (k - 1) as usize;
                        let mut s = slots.remove(j);
                        s.apply(rule, p);
                        slots.insert(j, s);
                        assert(slots@.map_values(|s: S| s@) =~= before.update(
                            j as int,
                            S::apply_spec(before[j as int], *rule, *p),
                        ));
                    }
                }
            }
            assert(slots@.map_values(|s: S| s@) == f(before, *p));
            i = i + 1;
        }
        assert(points@.take(points@.len() as int) =~= points@);
        std::mem::swap(&mut slots, &mut self.slots);
    }
}

/// The cached snapshots, oldest first: each with its stamp in seconds.
pub struct Cache<T> {
    deque: VecDeque<(i32, StrMap<T>)>,
}

impl<T> View for Cache<T> {
    type V = Seq<(i32, Map<Seq<char>, T>)>;

    open spec fn view(&self) -> Seq<(i32, Map<Seq<char>, T>)> {
        self.entries().map_values(|e: (i32, StrMap<T>)| (e.0, e.1@))
    }
}

impl<T> Cache<T> {
    pub closed spec fn entries(self) -> Seq<(i32, StrMap<T>)> {
        self.deque@
    }

    /// An empty cache.
    pub fn new() -> (c: Self)
        ensures
            c@ == Seq::<(i32, Map<Seq<char>, T>)>::empty(),
    {
        Cache { deque: VecDeque::new() }
    }

    /// The number of cached snapshots.
    pub fn len(&self) -> (n: usize)
        ensures
            n == self@.len(),
    {
        self.deque.len()
    }

    /// The stamp of the oldest cached snapshot.
    pub fn front_ts(&self) -> (r: Option<i32>)
        ensures
            r == (if self@.len() > 0 {
                Some(self@[0].0)
            } else {
                None
            }),
    {
        if self.deque.len() > 0 {
            Some(self.deque[0].0)
        } else {
            None
        }
    }

    /// Cached snapshot `i`: its stamp and its readings by instance.
    pub fn entry_at(&self, i: usize) -> (e: (i32, &StrMap<T>))
        requires
            i < self@.len(),
        ensures
            e.0 == self@[i as int].0,
            e.1@ == self@[i as int].1,
    {
        let e = &self.deque[i];
        (e.0, &e.1)
    }

    /// Adds the newest snapshot; first drops the oldest one when `drop_oldest`
    /// (memory is short) and there is one.
    pub fn push_back(&mut self, ts: i32, data: StrMap<T>, drop_oldest: bool)
        ensures
            final(self)@ == (if drop_oldest && old(self)@.len() > 0 {
                old(self)@.drop_first()
            } else {
                old(self)@
            }).push((ts, data@)),
    {
        if drop_oldest {
            let _ = self.deque.pop_front();
        }
        self.deque.push_back((ts, data));
        proof {
            let o = old(self).deque@;
            if drop_oldest && o.len() > 0 {
                assert(self.deque@ =~= o.subrange(1, o.len() as int).push((ts, data)));
            }
            assert(self@ =~= (if drop_oldest && old(self)@.len() > 0 {
                old(self)@.drop_first()
            } else {
                old(self)@
            }).push((ts, data@)));
        }
    }

    /// Adds a snapshot older than all cached ones (loading the cache from the database,
    /// newest first).
    pub fn push_front(&mut self, ts: i32, data: StrMap<T>)
        ensures
            final(self)@ == seq![(ts, data@)] + old(self)@,
    {
        self.deque.push_front((ts, data));
        assert(self@ =~= seq![(ts, data@)] + old(self)@);
    }
}

/// The stamp, in seconds, that the database row of the snapshot stamped `ts_ms` gets.
pub open spec fn spec_db_stamp(ts_ms: u64) -> i32 {
    (ts_ms / 1000) as i32
}

/// The stamp, in seconds, of the snapshot stamped `ts_ms` milliseconds.
pub fn db_stamp(ts_ms: u64) -> (s: i32)
    ensures
        s == spec_db_stamp(ts_ms),
{
    (ts_ms / 1000) as i32
}

/// The stamp under which the snapshot stamped `ts_ms` is cached: only snapshots whose
/// stamp in seconds is a multiple of the cache interval are cached.
pub fn cache_stamp(ts_ms: u64) -> (r: Option<i32>)
    ensures
        r == (if spec_db_stamp(ts_ms) % CACHEINTERVAL == 0 {
            Some(spec_db_stamp(ts_ms))
        } else {
            None
        }),
{
    let s = db_stamp(ts_ms);
    if s % CACHEINTERVAL == 0 {
        Some(s)
    } else {
        None
    }
}

/// The cache after keeping the snapshot `data` stamped `ts_ms` in cache `c`: kept when
/// its stamp in seconds falls on the cache interval, after dropping the oldest cached
/// snapshot when `mem_low`.
pub open spec fn cache_after_keep<T>(
    c: Seq<(i32, Map<Seq<char>, T>)>,
    ts_ms: u64,
    data: Map<Seq<char>, T>,
    mem_low: bool,
) -> Seq<(i32, Map<Seq<char>, T>)> {
    if spec_db_stamp(ts_ms) % CACHEINTERVAL == 0 {
        (if mem_low && c.len() > 0 {
            c.drop_first()
        } else {
            c
        }).push((spec_db_stamp(ts_ms), data))
    } else {
        c
    }
}

/// Whether the stamps of cached snapshots rise strictly, oldest first.
pub open spec fn stamps_rising<T>(c: Seq<(i32, Map<Seq<char>, T>)>) -> bool {
    forall|i: int, j: int| 0 <= i < j < c.len() ==> c[i].0 < c[j].0
}

/// Keeping snapshots in the cache round after round keeps it in stamp order: when the
/// new snapshot's stamp is later than every cached one, the cached stamps still rise
/// strictly, all on the cache interval when they were before.
pub proof fn lemma_keep_in_cache_rising<T>(
    c: Seq<(i32, Map<Seq<char>, T>)>,
    ts_ms: u64,
    data: Map<Seq<char>, T>,
    mem_low: bool,
)
    requires
        stamps_rising(c),
        c.len() > 0 ==> c.last().0 < spec_db_stamp(ts_ms),
    ensures
        stamps_rising(cache_after_keep(c, ts_ms, data, mem_low)),
        (forall|i: int| 0 <= i < c.len() ==> #[trigger] c[i].0 % CACHEINTERVAL == 0) ==> forall|
            i: int,
        |
            0 <= i < cache_after_keep(c, ts_ms, data, mem_low).len() ==> #[trigger] cache_after_keep(
                c,
                ts_ms,
                data,
                mem_low,
            )[i].0 % CACHEINTERVAL == 0,
{
    let r = cache_after_keep(c, ts_ms, data, mem_low);
    if spec_db_stamp(ts_ms) % CACHEINTERVAL == 0 {
        let b = if mem_low && c.len() > 0 {
            c.drop_first()
        } else {
            c
        };
        assert forall|i: int, j: int| 0 <= i < j < r.len() implies r[i].0 < r[j].0 by {
            if j == r.len() - 1 {
                if mem_low && c.len() > 0 {
                    assert(b[i] == c[i + 1]);
                    if i + 1 < c.len() - 1 {
                        assert(c[i + 1].0 < c[c.len() - 1].0);
                    }
                } else {
                    if i < c.len() - 1 {
                        assert(c[i].0 < c[c.len() - 1].0);
                    }
                }
            } else {
                if mem_low && c.len() > 0 {
                    assert(b[i] == c[i + 1] && b[j] == c[j + 1]);
                }
            }
        }
        if forall|i: int| 0 <= i < c.len() ==> #[trigger] c[i].0 % CACHEINTERVAL == 0 {
            assert forall|i: int| 0 <= i < r.len() implies #[trigger] r[i].0 % CACHEINTERVAL == 0 by {
                if i < r.len() - 1 {
                    if mem_low && c.len() > 0 {
                        assert(b[i] == c[i + 1]);
                    }
                }
            }
        }
    }
}

/// Loading the cache from the database newest first keeps it in stamp order: a snapshot
/// put in front of the cache with a stamp earlier than every cached one leaves the
/// cached stamps rising.
pub proof fn lemma_push_front_rising<T>(
    c: Seq<(i32, Map<Seq<char>, T>)>,
    ts: i32,
    data: Map<Seq<char>, T>,
)
    requires
        stamps_rising(c),
        c.len() > 0 ==> ts < c[0].0,
    ensures
        stamps_rising(seq![(ts, data)] + c),
{
    let r = seq![(ts, data)] + c;
    assert forall|i: int, j: int| 0 <= i < j < r.len() implies r[i].0 < r[j].0 by {
        if i == 0 {
            assert(r[j] == c[j - 1]);
            if j - 1 > 0 {
                assert(c[0].0 < c[j - 1].0);
            }
        } else {
            assert(r[i] == c[i - 1] && r[j] == c[j - 1]);
        }
    }
}

/// Keeps the snapshot stamped `ts_ms` in the cache when its stamp falls on the cache
/// interval, dropping the oldest cached snapshot first when `mem_low`.
pub fn keep_in_cache<T>(cache: &mut Cache<T>, ts_ms: u64, data: StrMap<T>, mem_low: bool)
    ensures
        final(cache)@ == cache_after_keep(old(cache)@, ts_ms, data@, mem_low),
{
    if let Some(s) = cache_stamp(ts_ms) {
        cache.push_back(s, data, mem_low);
    }
}

impl Timeline<ecs::Ecs> {
    /// Adds each listed instance to every snapshot.
    pub fn register_all(&mut self, ids: &Vec<Option<String>>)
        ensures
            final(self).base_spec() == old(self).base_spec(),
            final(self).period_spec() == old(self).period_spec(),
            final(self).views() == ids@.fold_left(
                old(self).views(),
                |acc: Seq<Map<Seq<char>, ecs::InnerView>>, id: Option<String>|
                    match id {
                        Some(s) => acc.map_values(
                            |m: Map<Seq<char>, ecs::InnerView>| m.insert(s@, ecs::inner_zero()),
                        ),
                        None => acc,
                    },
            ),
    {
        let ghost f = |acc: Seq<Map<Seq<char>, ecs::InnerView>>, id: Option<String>|
            match id {
                Some(s) => acc.map_values(
                    |m: Map<Seq<char>, ecs::InnerView>| m.insert(s@, ecs::inner_zero()),
                ),
                None => acc,
            };
        let ghost start = self.views();
        let mut slots: Vec<ecs::Ecs> = Vec::new();
        proof {
            use_type_invariant(&*self);
            assert(0 * self.period == 0) by (nonlinear_arith);
        }
        std::mem::swap(&mut slots, &mut self.slots);
        assert(ids@.take(0) =~= Seq::<Option<String>>::empty());
        let mut k: usize = 0;
        while k < ids.len()
            invariant
                k <= ids.len(),
                slots@.len() == old(self).slots@.len(),
                slots@.map_values(|s: ecs::Ecs| s@) == ids@.take(k as int).fold_left(start, f),
                f == (|acc: Seq<Map<Seq<char>, ecs::InnerView>>, id: Option<String>|
                    match id {
                        Some(s) => acc.map_values(
                            |m: Map<Seq<char>, ecs::InnerView>| m.insert(s@, ecs::inner_zero()),
                        ),
                        None => acc,
                    }),
            decreases ids.len() - k,
        {
            assert(ids@.take(k + 1).drop_last() =~= ids@.take(k as int));
            let ghost before = slots@.map_values(|s: ecs::Ecs| s@);
            if let Some(id) = &ids[k] {
                let mut j: usize = 0;
                while j < slots.len()
                    invariant
                        j <= slots@.len(),
                        slots@.len() == before.len(),
                        forall|x: int|
                            0 <= x < j ==> (#[trigger] slots@[x])@ == before[x].insert(
                                id@,
                                ecs::inner_zero(),
                            ),
                        forall|x: int| j <= x < slots@.len() ==> (#[trigger] slots@[x])@ == before[x],
                    decreases slots@.len() - j,
                {
                    let mut s = slots.remove(j);
                    s.register(id.clone());
                    slots.insert(j, s);
                    j = j + 1;
                }
                assert(slots@.map_values(|s: ecs::Ecs| s@) =~= before.map_values(
                    |m: Map<Seq<char>, ecs::InnerView>| m.insert(id@, ecs::inner_zero()),
                ));
                assert(ids@[k as int] == Some(*id));
            } else {
                assert(ids@[k as int] is None);
                assert(slots@.map_values(|s: ecs::Ecs| s@) == before);
            }
            assert(slots@.map_values(|s: ecs::Ecs| s@) == f(before, ids@[k as int]));
            k = k + 1;
        }
        assert(ids@.take(ids@.len() as int) =~= ids@);
        std::mem::swap(&mut slots, &mut self.slots);
    }
}

} // verus!
