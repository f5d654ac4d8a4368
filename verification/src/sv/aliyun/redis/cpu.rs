//! CPU usage of key-value store instances, in tenths of a percent.
use vstd::prelude::*;

use crate::sv::aliyun::{pairs_view, Datapoint, Timeline, INTERVAL};

use super::base;
use super::{Inner, Redis, RedisRule};

verus! {

/// The metric name.
pub const ME: &'static str = "CpuUsage";

/// CPU usage, in tenths of a percent.
pub struct Data;

impl Data {
    /// Query parameters: the key-value store ones and the metric.
    pub fn argv_new(&self, basestamp: u64) -> (argv: Vec<[String; 2]>)
        requires
            basestamp + INTERVAL <= u64::MAX,
        ensures
            pairs_view(argv@) == base::metric_params(basestamp, ME@),
    {
        base::argv_new(basestamp, ME)
    }

    /// Takes the readings, in order, into the snapshots.
    pub fn insert(&self, holder: &mut Timeline<Redis>, points: &Vec<Datapoint>)
        ensures
            final(holder).base_spec() == old(holder).base_spec(),
            final(holder).period_spec() == old(holder).period_spec(),
            final(holder).views() == base::ingested(
                old(holder).base_spec(),
                old(holder).period_spec(),
                RedisRule::CpuRatio,
                old(holder).views(),
                points@,
            ),
    {
        base::insert(holder, points, RedisRule::CpuRatio);
    }
}

/// Sets the CPU usage, given in tenths of a percent.
pub fn setter(inner: &mut Inner, v: i32)
    ensures
        *final(inner) == (Inner { cpu_ratio: v as i16, ..*old(inner) }),
{
    inner.cpu_ratio = v as i16;
}

} // verus!
