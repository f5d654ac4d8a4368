//! Bytes received by memcache instances, stored as kilobytes.
use vstd::prelude::*;

use crate::sv::aliyun::{pairs_view, Datapoint, Timeline, INTERVAL};
use crate::textbuf::div_trunc;

use super::base;
use super::{Inner, Memcache, MemcacheRule};

verus! {

/// The metric name.
pub const ME: &'static str = "IntranetIn";

/// Bytes received, stored as kilobytes.
pub struct Data;

impl Data {
    /// Query parameters: the memcache ones and the metric.
    pub fn argv_new(&self, basestamp: u64) -> (argv: Vec<[String; 2]>)
        requires
            basestamp + INTERVAL <= u64::MAX,
        ensures
            pairs_view(argv@) == base::metric_params(basestamp, ME@),
    {
        base::argv_new(basestamp, ME)
    }

    /// Takes the readings, in order, into the snapshots.
    pub fn insert(&self, holder: &mut Timeline<Memcache>, points: &Vec<Datapoint>)
        ensures
            final(holder).base_spec() == old(holder).base_spec(),
            final(holder).period_spec() == old(holder).period_spec(),
            final(holder).views() == base::ingested(
                old(holder).base_spec(),
                old(holder).period_spec(),
                MemcacheRule::Rd,
                old(holder).views(),
                points@,
            ),
    {
        base::insert(holder, points, MemcacheRule::Rd);
    }
}

/// A byte count as kilobytes, rounding toward zero.
pub open spec fn bytes_to_kb(v: i32) -> i32 {
    div_trunc(v as int, 1024) as i32
}

/// Sets the kilobytes received from a byte count.
pub fn setter(inner: &mut Inner, v: i32)
    ensures
        *final(inner) == (Inner { rd: bytes_to_kb(v), ..*old(inner) }),
{
    inner.rd = v / 1024;
}

} // verus!
