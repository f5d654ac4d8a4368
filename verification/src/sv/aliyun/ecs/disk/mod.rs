//! Disk readings of ECS instances, by device name.
use vstd::prelude::*;

use crate::sv::aliyun::{pairs_view, Datapoint, Timeline, INTERVAL};

use super::{base, Ecs, EcsRule};

pub mod rd_tps;

pub use crate::ecs::disk::{DiskRecord, Meta};

verus! {

/// One disk's readings.
#[derive(Clone, Copy, PartialEq, Eq, Structural)]
pub struct Disk {
    /// Usage, in percent.
    pub rate: i32,
    /// Read, in kilobytes.
    pub rd: i32,
    /// Written, in kilobytes.
    pub wr: i32,
    /// Reads per second.
    pub rdtps: i32,
    /// Writes per second.
    pub wrtps: i32,
}

/// The readings of a disk not read yet.
pub open spec fn disk_zero() -> Disk {
    Disk { rate: 0, rd: 0, wr: 0, rdtps: 0, wrtps: 0 }
}

/// Which reading of a disk a metric sets.
#[derive(Clone, Copy, PartialEq, Eq, Structural)]
pub enum DiskField {
    Rate,
    RdTps,
}

/// `d` with reading `f` set to `v`.
pub open spec fn disk_set(d: Disk, f: DiskField, v: i32) -> Disk {
    match f {
        DiskField::Rate => Disk { rate: v, ..d },
        DiskField::RdTps => Disk { rdtps: v, ..d },
    }
}

/// A disk usage reading sets the usage and only it; a read-IOPS reading sets the reads
/// per second and only them: read and written kilobytes and the writes per second
/// stay as they were.
pub proof fn lemma_disk_set_fields(d: Disk, a: i32)
    ensures
        disk_set(d, DiskField::Rate, a) == (Disk { rate: a, ..d }),
        disk_set(d, DiskField::RdTps, a) == (Disk { rdtps: a, ..d }),
        disk_set(d, DiskField::RdTps, a).wrtps == d.wrtps,
        disk_set(d, DiskField::Rate, a).rdtps == d.rdtps,
{
}

impl Disk {
    pub fn new() -> (d: Disk)
        ensures
            d == disk_zero(),
    {
        Disk { rate: 0, rd: 0, wr: 0, rdtps: 0, wrtps: 0 }
    }

    /// Sets reading `f` to `v`.
    pub fn set(&mut self, f: DiskField, v: i32)
        ensures
            *final(self) == disk_set(*old(self), f, v),
    {
        match f {
            DiskField::Rate => self.rate = v,
            DiskField::RdTps => self.rdtps = v,
        }
    }
}

/// The metric name of disk usage.
pub const ME: &'static str = "diskusage_utilization";

/// Disk usage, in percent, by device.
pub struct Data;

impl Data {
    /// Query parameters: the ECS ones and the metric.
    pub fn argv_new(&self, basestamp: u64) -> (argv: Vec<[String; 2]>)
        requires
            basestamp + INTERVAL <= u64::MAX,
        ensures
            pairs_view(argv@) == base::metric_params(basestamp, ME@),
    {
        base::metric_argv(basestamp, ME)
    }

    /// Takes the readings, in order, into the snapshots: each sets the usage of the
    /// reading's device of the reading's instance.
    pub fn insert(&self, holder: &mut Timeline<Ecs>, points: &Vec<Datapoint>)
        ensures
            final(holder).base_spec() == old(holder).base_spec(),
            final(holder).period_spec() == old(holder).period_spec(),
            final(holder).views() == base::ingested(
                old(holder).base_spec(),
                old(holder).period_spec(),
                EcsRule::Disk(DiskField::Rate),
                old(holder).views(),
                points@,
            ),
    {
        base::insert(holder, points, EcsRule::Disk(DiskField::Rate));
    }
}

} // verus!
