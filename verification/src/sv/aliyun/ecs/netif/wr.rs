//! Bits sent per second, stored as kilobytes.
use vstd::prelude::*;

use crate::sv::aliyun::{pairs_view, Datapoint, Timeline, INTERVAL};

use super::super::base;
use super::super::{Ecs, EcsRule};
use super::NetIfField;

verus! {

/// The metric name.
pub const ME: &'static str = "networkout_rate";

/// Bits sent per second, stored as kilobytes.
pub struct Data;

impl Data {
    /// Query parameters: the ECS ones and the metric.
    pub fn argv_new(&self, basestamp: u64) -> (argv: Vec<[String; 2]>)
        requires
            basestamp + INTERVAL <= u64::MAX,
        ensures
            pairs_view(argv@) == base::metric_params(basestamp, ME@),
    {
        base::metric_argv(basestamp, ME)
    }

    /// Takes the readings, in order, into the snapshots: each sets the reading of the
    /// interface with the reading's IP address of the reading's instance.
    pub fn insert(&self, holder: &mut Timeline<Ecs>, points: &Vec<Datapoint>)
        ensures
            final(holder).base_spec() == old(holder).base_spec(),
            final(holder).period_spec() == old(holder).period_spec(),
            final(holder).views() == base::ingested(
                old(holder).base_spec(),
                old(holder).period_spec(),
                EcsRule::NetIf(NetIfField::Wr),
                old(holder).views(),
                points@,
            ),
    {
        base::insert(holder, points, EcsRule::NetIf(NetIfField::Wr));
    }
}

} // verus!
