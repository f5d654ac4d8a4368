//! Bits sent per second, stored as kilobytes.
use vstd::prelude::*;

use crate::sv::aliyun::ecs::netif::{bits_to_kb, to_kb};
use crate::sv::aliyun::{pairs_view, Datapoint, Timeline, INTERVAL};

use super::base;
use super::{Inner, Slb, SlbRule};

verus! {

/// The metric name.
pub const ME: &'static str = "TrafficTXNew";

/// Bits sent per second, stored as kilobytes.
pub struct Data;

impl Data {
    /// Query parameters: the load balancer ones and the metric.
    pub fn argv_new(&self, basestamp: u64) -> (argv: Vec<[String; 2]>)
        requires
            basestamp + INTERVAL <= u64::MAX,
        ensures
            pairs_view(argv@) == base::metric_params(basestamp, ME@),
    {
        base::argv_new(basestamp, ME)
    }

    /// Takes the readings, in order, into the snapshots.
    pub fn insert(&self, holder: &mut Timeline<Slb>, points: &Vec<Datapoint>)
        ensures
            final(holder).base_spec() == old(holder).base_spec(),
            final(holder).period_spec() == old(holder).period_spec(),
            final(holder).views() == base::ingested(
                old(holder).base_spec(),
                old(holder).period_spec(),
                SlbRule::Wr,
                old(holder).views(),
                points@,
            ),
    {
        base::insert(holder, points, SlbRule::Wr);
    }
}

/// Sets the kilobytes sent from bits per second.
pub fn setter(inner: &mut Inner, v: i32)
    ensures
        *final(inner) == (Inner { wr: bits_to_kb(v), ..*old(inner) }),
{
    inner.wr = to_kb(v);
}

} // verus!
