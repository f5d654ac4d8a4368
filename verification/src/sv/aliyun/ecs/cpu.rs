//! CPU usage, in tenths of a percent.
use vstd::prelude::*;

use crate::sv::aliyun::{pairs_view, Datapoint, Timeline, INTERVAL};

use super::base;
use super::{Ecs, EcsRule, Inner, InnerView};

verus! {

/// The metric name.
pub const ME: &'static str = "cpu_total";

/// CPU usage, in tenths of a percent.
pub struct Data;

impl Data {
    /// Query parameters: the ECS ones and the metric.
    pub fn argv_new(&self, basestamp: u64) -> (argv: Vec<[String; 2]>)
        requires
            basestamp + INTERVAL <= u64::MAX,
        ensures
            pairs_view(argv@) == base::metric_params(basestamp, ME@),
    {
        base::metric_argv(basestamp, ME)
    }

    /// Takes the readings, in order, into the snapshots.
    pub fn insert(&self, holder: &mut Timeline<Ecs>, points: &Vec<Datapoint>)
        ensures
            final(holder).base_spec() == old(holder).base_spec(),
            final(holder).period_spec() == old(holder).period_spec(),
            final(holder).views() == base::ingested(
                old(holder).base_spec(),
                old(holder).period_spec(),
                EcsRule::CpuRatio,
                old(holder).views(),
                points@,
            ),
    {
        base::insert(holder, points, EcsRule::CpuRatio);
    }
}

/// Sets the CPU usage, given in tenths of a percent.
pub fn setter(inner: &mut Inner, v: i32)
    ensures
        final(inner)@ == (InnerView { cpu_ratio: v as i16, ..old(inner)@ }),
{
    inner.cpu_ratio = v as i16;
}

} // verus!
