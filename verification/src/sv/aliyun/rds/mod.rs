//! Relational database instances: CPU, memory, disk, disk I/O and connection usage,
//! and replication delay.
use vstd::prelude::*;

use crate::serv::sv::{reading, selection};
use crate::strmap::StrMap;
use crate::sv::aliyun::{Gauge, Timeline, INTERVAL};
use crate::textbuf::str_eq;

verus! {

/// The metric namespace of database instances.
pub const ACSITEM: &'static str = "acs_rds_dashboard";

/// Spacing of database snapshots, in milliseconds: one cache interval.
pub const MSPERIOD: u64 = 300000;

/// The readings of one database instance.
#[derive(Clone, Copy, PartialEq, Eq, Structural)]
pub struct Inner {
    /// CPU usage, in tenths of a percent.
    pub cpu_ratio: i16,
    /// Memory usage, in tenths of a percent.
    pub mem_ratio: i16,
    /// Disk usage, in tenths of a percent.
    pub disk_ratio: i16,
    /// Disk I/O usage (in and out), in tenths of a percent.
    pub disktps_ratio: i16,
    /// Connection usage, in tenths of a percent.
    pub conn_ratio: i16,
    /// Replication delay, in seconds.
    pub delay: i16,
}

/// The readings of a database instance not read yet.
pub open spec fn inner_zero() -> Inner {
    Inner { cpu_ratio: 0, mem_ratio: 0, disk_ratio: 0, disktps_ratio: 0, conn_ratio: 0, delay: 0 }
}

/// What an item name of a request selects.
#[derive(Clone, Copy, PartialEq, Eq, Structural)]
pub enum Cb {
    CpuRatio,
    MemRatio,
    DiskRatio,
    DisktpsRatio,
    ConnRatio,
    Delay,
}

/// The selection that an item name makes, if any.
pub open spec fn cb_of(me: Seq<char>) -> Option<Cb> {
    if me == "cpu_ratio"@ {
        Some(Cb::CpuRatio)
    } else if me == "mem_ratio"@ {
        Some(Cb::MemRatio)
    } else if me == "disk_ratio"@ {
        Some(Cb::DiskRatio)
    } else if me == "disktps_ratio"@ {
        Some(Cb::DisktpsRatio)
    } else if me == "conn_ratio"@ {
        Some(Cb::ConnRatio)
    } else if me == "delay"@ {
        Some(Cb::Delay)
    } else {
        None
    }
}

/// Reading `cb` of `me`.
pub open spec fn read_of(me: Inner, cb: Cb) -> i32 {
    match cb {
        Cb::CpuRatio => me.cpu_ratio as i32,
        Cb::MemRatio => me.mem_ratio as i32,
        Cb::DiskRatio => me.disk_ratio as i32,
        Cb::DisktpsRatio => me.disktps_ratio as i32,
        Cb::ConnRatio => me.conn_ratio as i32,
        Cb::Delay => me.delay as i32,
    }
}

impl Inner {
    pub fn new() -> (i: Inner)
        ensures
            i == inner_zero(),
    {
        Inner { cpu_ratio: 0, mem_ratio: 0, disk_ratio: 0, disktps_ratio: 0, conn_ratio: 0, delay: 0 }
    }

    pub fn cpu_ratio(me: &Self, _dev: &str, _item: &str) -> (r: i32)
        ensures
            r == me.cpu_ratio as i32,
    {
        me.cpu_ratio as i32
    }

    pub fn mem_ratio(me: &Self, _dev: &str, _item: &str) -> (r: i32)
        ensures
            r == me.mem_ratio as i32,
    {
        me.mem_ratio as i32
    }

    pub fn disk_ratio(me: &Self, _dev: &str, _item: &str) -> (r: i32)
        ensures
            r == me.disk_ratio as i32,
    {
        me.disk_ratio as i32
    }

    pub fn disktps_ratio(me: &Self, _dev: &str, _item: &str) -> (r: i32)
        ensures
            r == me.disktps_ratio as i32,
    {
        me.disktps_ratio as i32
    }

    pub fn conn_ratio(me: &Self, _dev: &str, _item: &str) -> (r: i32)
        ensures
            r == me.conn_ratio as i32,
    {
        me.conn_ratio as i32
    }

    pub fn delay(me: &Self, _dev: &str, _item: &str) -> (r: i32)
        ensures
            r == me.delay as i32,
    {
        me.delay as i32
    }

    /// The selection that item name `me` makes.
    pub fn get_cb(me: &str) -> (r: Option<Cb>)
        ensures
            r == cb_of(me@),
    {
        if str_eq(me, "cpu_ratio") {
            Some(Cb::CpuRatio)
        } else if str_eq(me, "mem_ratio") {
            Some(Cb::MemRatio)
        } else if str_eq(me, "disk_ratio") {
            Some(Cb::DiskRatio)
        } else if str_eq(me, "disktps_ratio") {
            Some(Cb::DisktpsRatio)
        } else if str_eq(me, "conn_ratio") {
            Some(Cb::ConnRatio)
        } else if str_eq(me, "delay") {
            Some(Cb::Delay)
        } else {
            None
        }
    }
}

/// Each item name of a relational database query reads the field of that name of a snapshot `v`
/// of an instance (`cpu_ratio`, `mem_ratio`, `disk_ratio`, `disktps_ratio`, `conn_ratio`, `delay`); any other name reads -1.
pub proof fn lemma_items_read_fields(v: Inner, name: Seq<char>)
    ensures
        reading::<Inner>(v, selection::<Inner>(("cpu_ratio"@, None, None))->0) == v.cpu_ratio as i64,
        reading::<Inner>(v, selection::<Inner>(("mem_ratio"@, None, None))->0) == v.mem_ratio as i64,
        reading::<Inner>(v, selection::<Inner>(("disk_ratio"@, None, None))->0) == v.disk_ratio as i64,
        reading::<Inner>(v, selection::<Inner>(("disktps_ratio"@, None, None))->0) == v.disktps_ratio as i64,
        reading::<Inner>(v, selection::<Inner>(("conn_ratio"@, None, None))->0) == v.conn_ratio as i64,
        reading::<Inner>(v, selection::<Inner>(("delay"@, None, None))->0) == v.delay as i64,
        name != "cpu_ratio"@ && name != "mem_ratio"@ && name != "disk_ratio"@ && name != "disktps_ratio"@ && name != "conn_ratio"@ && name != "delay"@ ==> reading::<Inner>(
            v,
            selection::<Inner>((name, None, None))->0,
        ) == -1,
{
    reveal_strlit("cpu_ratio");
    reveal_strlit("mem_ratio");
    reveal_strlit("disk_ratio");
    reveal_strlit("disktps_ratio");
    reveal_strlit("conn_ratio");
    reveal_strlit("delay");
    assert("mem_ratio"@[0] != "cpu_ratio"@[0]);
    assert("disk_ratio"@.len() != "cpu_ratio"@.len());
    assert("disk_ratio"@.len() != "mem_ratio"@.len());
    assert("disktps_ratio"@.len() != "cpu_ratio"@.len());
    assert("disktps_ratio"@.len() != "mem_ratio"@.len());
    assert("disktps_ratio"@.len() != "disk_ratio"@.len());
    assert("conn_ratio"@.len() != "cpu_ratio"@.len());
    assert("conn_ratio"@.len() != "mem_ratio"@.len());
    assert("conn_ratio"@[0] != "disk_ratio"@[0]);
    assert("conn_ratio"@.len() != "disktps_ratio"@.len());
    assert("delay"@.len() != "cpu_ratio"@.len());
    assert("delay"@.len() != "mem_ratio"@.len());
    assert("delay"@.len() != "disk_ratio"@.len());
    assert("delay"@.len() != "disktps_ratio"@.len());
    assert("delay"@.len() != "conn_ratio"@.len());
}

impl Gauge for Inner {
    type Cb = Cb;

    open spec fn cb_spec(name: Seq<char>) -> Option<Cb> {
        cb_of(name)
    }

    open spec fn read_spec(&self, cb: Cb, dev: Seq<char>, item: Seq<char>) -> i32 {
        read_of(*self, cb)
    }

    fn callback(name: &str) -> (r: Option<Cb>) {
        Inner::get_cb(name)
    }

    fn read(&self, cb: Cb, dev: &str, item: &str) -> (r: i32) {
        match cb {
            Cb::CpuRatio => Inner::cpu_ratio(self, dev, item),
            Cb::MemRatio => Inner::mem_ratio(self, dev, item),
            Cb::DiskRatio => Inner::disk_ratio(self, dev, item),
            Cb::DisktpsRatio => Inner::disktps_ratio(self, dev, item),
            Cb::ConnRatio => Inner::conn_ratio(self, dev, item),
            Cb::Delay => Inner::delay(self, dev, item),
        }
    }
}

/// The database instances of one snapshot, by instance id.
pub struct Rds {
    pub data: StrMap<Inner>,
}

impl View for Rds {
    type V = Map<Seq<char>, Inner>;

    open spec fn view(&self) -> Map<Seq<char>, Inner> {
        self.data@
    }
}

impl Rds {
    pub fn new() -> (s: Rds)
        ensures
            s@ == Map::<Seq<char>, Inner>::empty(),
    {
        Rds { data: StrMap::new() }
    }
}

/// The snapshots of one round for database instances: one per `MSPERIOD` after
/// `basestamp`.
pub fn holder_new(basestamp: u64) -> (h: Timeline<Rds>)
    requires
        basestamp + INTERVAL <= u64::MAX,
    ensures
        h.base_spec() == basestamp,
        h.period_spec() == MSPERIOD,
        h.slots_spec().len() == INTERVAL / MSPERIOD,
        forall|i: int|
            0 <= i < h.slots_spec().len() ==> (#[trigger] h.slots_spec()[i])@ == Map::<
                Seq<char>,
                Inner,
            >::empty(),
{
    let mut slots: Vec<Rds> = Vec::new();
    let n = INTERVAL / MSPERIOD;
    let mut i: u64 = 0;
    while i < n
        invariant
            i <= n,
            n == INTERVAL / MSPERIOD,
            slots@.len() == i,
            forall|j: int| 0 <= j < i ==> (#[trigger] slots@[j])@ == Map::<Seq<char>, Inner>::empty(),
        decreases n - i,
    {
        slots.push(Rds::new());
        i = i + 1;
    }
    Timeline::from_slots(basestamp, MSPERIOD, slots)
}

} // verus!
