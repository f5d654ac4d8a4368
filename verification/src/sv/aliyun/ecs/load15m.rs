//! 15-minute load, times 1000.
use vstd::prelude::*;

use crate::sv::aliyun::{pairs_view, Datapoint, Timeline, INTERVAL};

use super::base;
use super::{Ecs, EcsRule, Inner, InnerView};

verus! {

/// The metric name.
pub const ME: &'static str = "load_15m";

/// 15-minute load, times 1000.
pub struct Data;

impl Data {
    /// Query parameters: the ECS ones and the metric.
    pub fn argv_new(&self, basestamp: u64) -> (argv: Vec<[String; 2]>)
        requires
            basestamp + INTERVAL <= u64::MAX,
        ensures
            pairs_view(argv@) == base::metric_params(basestamp, ME@),
    {
        base::metric_argv(basestamp, ME)
    }

    /// Takes the readings, in order, into the snapshots.
    pub fn insert(&self, holder: &mut Timeline<Ecs>, points: &Vec<Datapoint>)
        ensures
            final(holder).base_spec() == old(holder).base_spec(),
            final(holder).period_spec() == old(holder).period_spec(),
            final(holder).views() == base::ingested(
                old(holder).base_spec(),
                old(holder).period_spec(),
                EcsRule::Load15m,
                old(holder).views(),
                points@,
            ),
    {
        base::insert(holder, points, EcsRule::Load15m);
    }
}

/// Sets the 15-minute load, given times 1000.
pub fn setter(inner: &mut Inner, v: i32)
    ensures
        final(inner)@ == (InnerView { load15m: v, ..old(inner)@ }),
{
    inner.load15m = v;
}

} // verus!
