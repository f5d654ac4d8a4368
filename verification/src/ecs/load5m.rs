//! The 5-minute load, in the per-instance ECS collector.
use vstd::prelude::*;

use crate::strmap::StrMap;
use crate::sv::aliyun::{Datapoint, INTERVAL};
use crate::textbuf::{decimal, spec_decimal};

use super::{argv_new_base, base_args, Ecs};

verus! {

/// The 5-minute load.
pub struct Data;

impl Data {
    /// Query parameters: the base ones, the metric, and the round starting at
    /// `basestamp`, its last millisecond included.
    pub fn argv_new(&self, region: String, basestamp: u64) -> (argv: Vec<String>)
        requires
            basestamp + INTERVAL <= u64::MAX,
        ensures
            argv@.map_values(|s: String| s@) == base_args(region@) + seq![
                "load_5m"@,
                "StartTime"@,
                spec_decimal(basestamp as int),
                "EndTime"@,
                spec_decimal(basestamp + INTERVAL - 1),
            ],
    {
        let ghost r = region@;
        let mut argv = argv_new_base(region);
        argv.push("load_5m".to_owned());
        argv.push("StartTime".to_owned());
        argv.push(decimal(basestamp as i128));
        argv.push("EndTime".to_owned());
        argv.push(decimal((basestamp + INTERVAL - 1) as i128));
        assert(argv@.map_values(|s: String| s@) =~= base_args(r) + seq![
            "load_5m"@,
            "StartTime"@,
            spec_decimal(basestamp as int),
            "EndTime"@,
            spec_decimal(basestamp + INTERVAL - 1),
        ]);
        argv
    }

    /// Takes the readings: this metric leaves the instances as they are.
    pub fn insert(&self, holder: &mut StrMap<Ecs>, _points: &Vec<Datapoint>)
        ensures
            final(holder)@ == old(holder)@,
    {
    }
}

} // verus!
