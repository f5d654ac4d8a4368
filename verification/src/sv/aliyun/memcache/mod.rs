//! Memcache instances: CPU, memory and connection usage, and traffic.
use vstd::prelude::*;

use crate::serv::sv::{reading, selection};
use crate::strmap::StrMap;
use crate::sv::aliyun::{Datapoint, Gauge, Sample, Timeline, INTERVAL};
use crate::textbuf::str_eq;

pub mod base;
mod rd;

pub use rd::Data as RdData;

verus! {

/// The metric namespace of memcache instances.
pub const ACSITEM: &'static str = "acs_memcache";

/// Spacing of memcache snapshots, in milliseconds: one cache interval.
pub const MSPERIOD: u64 = 300000;

/// The readings of one memcache instance.
#[derive(Clone, Copy, PartialEq, Eq, Structural)]
pub struct Inner {
    /// CPU usage, in tenths of a percent.
    pub cpu_ratio: i16,
    /// Memory usage, in tenths of a percent.
    pub mem_ratio: i16,
    /// Connection usage, in tenths of a percent.
    pub conn_ratio: i16,
    /// Received, in kilobytes.
    pub rd: i32,
    /// Sent, in kilobytes.
    pub wr: i32,
}

/// The readings of an instance not read yet.
pub open spec fn inner_zero() -> Inner {
    Inner { cpu_ratio: 0, mem_ratio: 0, conn_ratio: 0, rd: 0, wr: 0 }
}

/// What an item name of a request selects.
#[derive(Clone, Copy, PartialEq, Eq, Structural)]
pub enum Cb {
    CpuRatio,
    MemRatio,
    ConnRatio,
    Rd,
    Wr,
}

/// The selection that an item name makes, if any.
pub open spec fn cb_of(me: Seq<char>) -> Option<Cb> {
    if me == "cpu_ratio"@ {
        Some(Cb::CpuRatio)
    } else if me == "mem_ratio"@ {
        Some(Cb::MemRatio)
    } else if me == "conn_ratio"@ {
        Some(Cb::ConnRatio)
    } else if me == "rd"@ {
        Some(Cb::Rd)
    } else if me == "wr"@ {
        Some(Cb::Wr)
    } else {
        None
    }
}

/// Reading `cb` of `me`.
pub open spec fn read_of(me: Inner, cb: Cb) -> i32 {
    match cb {
        Cb::CpuRatio => me.cpu_ratio as i32,
        Cb::MemRatio => me.mem_ratio as i32,
        Cb::ConnRatio => me.conn_ratio as i32,
        Cb::Rd => me.rd,
        Cb::Wr => me.wr,
    }
}

impl Inner {
    pub fn new() -> (i: Inner)
        ensures
            i == inner_zero(),
    {
        Inner { cpu_ratio: 0, mem_ratio: 0, conn_ratio: 0, rd: 0, wr: 0 }
    }

    pub fn cpu_ratio(me: &Self, _dev: &str, _item: &str) -> (r: i32)
        ensures
            r == me.cpu_ratio as i32,
    {
        me.cpu_ratio as i32
    }

    pub fn mem_ratio(me: &Self, _dev: &str, _item: &str) -> (r: i32)
        ensures
            r == me.mem_ratio as i32,
    {
        me.mem_ratio as i32
    }

    pub fn conn_ratio(me: &Self, _dev: &str, _item: &str) -> (r: i32)
        ensures
            r == me.conn_ratio as i32,
    {
        me.conn_ratio as i32
    }

    pub fn rd(me: &Self, _dev: &str, _item: &str) -> (r: i32)
        ensures
            r == me.rd,
    {
        me.rd
    }

    pub fn wr(me: &Self, _dev: &str, _item: &str) -> (r: i32)
        ensures
            r == me.wr,
    {
        me.wr
    }

    /// The selection that item name `me` makes.
    pub fn get_cb(me: &str) -> (r: Option<Cb>)
        ensures
            r == cb_of(me@),
    {
        if str_eq(me, "cpu_ratio") {
            Some(Cb::CpuRatio)
        } else if str_eq(me, "mem_ratio") {
            Some(Cb::MemRatio)
        } else if str_eq(me, "conn_ratio") {
            Some(Cb::ConnRatio)
        } else if str_eq(me, "rd") {
            Some(Cb::Rd)
        } else if str_eq(me, "wr") {
            Some(Cb::Wr)
        } else {
            None
        }
    }
}

/// Each item name of a memcache query reads the field of that name of a snapshot `v`
/// of an instance (`cpu_ratio`, `mem_ratio`, `conn_ratio`, `rd`, `wr`); any other name reads -1.
pub proof fn lemma_items_read_fields(v: Inner, name: Seq<char>)
    ensures
        reading::<Inner>(v, selection::<Inner>(("cpu_ratio"@, None, None))->0) == v.cpu_ratio as i64,
        reading::<Inner>(v, selection::<Inner>(("mem_ratio"@, None, None))->0) == v.mem_ratio as i64,
        reading::<Inner>(v, selection::<Inner>(("conn_ratio"@, None, None))->0) == v.conn_ratio as i64,
        reading::<Inner>(v, selection::<Inner>(("rd"@, None, None))->0) == v.rd as i64,
        reading::<Inner>(v, selection::<Inner>(("wr"@, None, None))->0) == v.wr as i64,
        name != "cpu_ratio"@ && name != "mem_ratio"@ && name != "conn_ratio"@ && name != "rd"@ && name != "wr"@ ==> reading::<Inner>(
            v,
            selection::<Inner>((name, None, None))->0,
        ) == -1,
{
    reveal_strlit("cpu_ratio");
    reveal_strlit("mem_ratio");
    reveal_strlit("conn_ratio");
    reveal_strlit("rd");
    reveal_strlit("wr");
    assert("mem_ratio"@[0] != "cpu_ratio"@[0]);
    assert("conn_ratio"@.len() != "cpu_ratio"@.len());
    assert("conn_ratio"@.len() != "mem_ratio"@.len());
    assert("rd"@.len() != "cpu_ratio"@.len());
    assert("rd"@.len() != "mem_ratio"@.len());
    assert("rd"@.len() != "conn_ratio"@.len());
    assert("wr"@.len() != "cpu_ratio"@.len());
    assert("wr"@.len() != "mem_ratio"@.len());
    assert("wr"@.len() != "conn_ratio"@.len());
    assert("wr"@[0] != "rd"@[0]);
}

impl Gauge for Inner {
    type Cb = Cb;

    open spec fn cb_spec(name: Seq<char>) -> Option<Cb> {
        cb_of(name)
    }

    open spec fn read_spec(&self, cb: Cb, dev: Seq<char>, item: Seq<char>) -> i32 {
        read_of(*self, cb)
    }

    fn callback(name: &str) -> (r: Option<Cb>) {
        Inner::get_cb(name)
    }

    fn read(&self, cb: Cb, dev: &str, item: &str) -> (r: i32) {
        match cb {
            Cb::CpuRatio => Inner::cpu_ratio(self, dev, item),
            Cb::MemRatio => Inner::mem_ratio(self, dev, item),
            Cb::ConnRatio => Inner::conn_ratio(self, dev, item),
            Cb::Rd => Inner::rd(self, dev, item),
            Cb::Wr => Inner::wr(self, dev, item),
        }
    }
}

/// How a reading changes a memcache instance's readings.
#[derive(Clone, Copy, PartialEq, Eq, Structural)]
pub enum MemcacheRule {
    /// Bytes received, stored as kilobytes.
    Rd,
}

/// The memcache instances of one snapshot, by instance id.
pub struct Memcache {
    pub data: StrMap<Inner>,
}

impl View for Memcache {
    type V = Map<Seq<char>, Inner>;

    open spec fn view(&self) -> Map<Seq<char>, Inner> {
        self.data@
    }
}

/// The snapshot after reading `p` by `rule`: an instance not in the snapshot yet enters
/// it with no readings first.
pub open spec fn memcache_apply(v: Map<Seq<char>, Inner>, rule: MemcacheRule, p: Datapoint) -> Map<
    Seq<char>,
    Inner,
> {
    match (p.instance_id, p.scaled) {
        (Some(id), Some(x)) => {
            let old = if v.contains_key(id@) {
                v[id@]
            } else {
                inner_zero()
            };
            match rule {
                MemcacheRule::Rd => v.insert(id@, Inner { rd: rd::bytes_to_kb(x), ..old }),
            }
        },
        _ => v,
    }
}

/// A memcache instance's inbound reading sets, of that instance only, the kilobytes
/// received (the scaled byte count over 1024, toward zero), one not in the snapshot yet
/// starting from all zero; its other readings, and every other instance, stay as they
/// were. A reading without an instance or a scaled average changes nothing.
pub proof fn lemma_memcache_rule(v: Map<Seq<char>, Inner>, p: Datapoint)
    ensures
        match (p.instance_id, p.scaled) {
            (Some(id), Some(x)) => {
                let before = if v.contains_key(id@) {
                    v[id@]
                } else {
                    Inner { cpu_ratio: 0, mem_ratio: 0, conn_ratio: 0, rd: 0, wr: 0 }
                };
                let kb = if x >= 0 {
                    x / 1024
                } else {
                    -((-x) / 1024)
                };
                memcache_apply(v, MemcacheRule::Rd, p) == v.insert(
                    id@,
                    (Inner { rd: kb as i32, ..before }),
                )
            },
            _ => memcache_apply(v, MemcacheRule::Rd, p) == v,
        },
{
}

impl Memcache {
    pub fn new() -> (s: Memcache)
        ensures
            s@ == Map::<Seq<char>, Inner>::empty(),
    {
        Memcache { data: StrMap::new() }
    }
}

impl Sample for Memcache {
    type Rule = MemcacheRule;

    open spec fn apply_spec(v: Map<Seq<char>, Inner>, rule: MemcacheRule, p: Datapoint) -> Map<
        Seq<char>,
        Inner,
    > {
        memcache_apply(v, rule, p)
    }

    fn apply(&mut self, rule: &MemcacheRule, p: &Datapoint) {
        if let (Some(id), Some(x)) = (&p.instance_id, p.scaled) {
            let mut entry = match self.data.get(id.as_str()) {
                Some(e) => *e,
                None => Inner::new(),
            };
            match rule {
                MemcacheRule::Rd => rd::setter(&mut entry, x),
            }
            self.data.insert(id.clone(), entry);
        }
    }
}

/// The snapshots of one round for memcache instances: one per `MSPERIOD` after
/// `basestamp`.
pub fn holder_new(basestamp: u64) -> (h: Timeline<Memcache>)
    requires
        basestamp + INTERVAL <= u64::MAX,
    ensures
        h.base_spec() == basestamp,
        h.period_spec() == MSPERIOD,
        h.views() == Seq::new(
            (INTERVAL / MSPERIOD) as nat,
            |i: int| Map::<Seq<char>, Inner>::empty(),
        ),
{
    let mut slots: Vec<Memcache> = Vec::new();
    let n = INTERVAL / MSPERIOD;
    let mut i: u64 = 0;
    while i < n
        invariant
            i <= n,
            n == INTERVAL / MSPERIOD,
            slots@.len() == i,
            forall|j: int| 0 <= j < i ==> (#[trigger] slots@[j])@ == Map::<Seq<char>, Inner>::empty(),
        decreases n - i,
    {
        slots.push(Memcache::new());
        i = i + 1;
    }
    let h = Timeline::from_slots(basestamp, MSPERIOD, slots);
    assert(h.views() =~= Seq::new(
        (INTERVAL / MSPERIOD) as nat,
        |i: int| Map::<Seq<char>, Inner>::empty(),
    ));
    h
}

} // verus!
