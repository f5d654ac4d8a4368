//! Server load balancers: traffic, packets and connections.
use vstd::prelude::*;

use crate::serv::sv::{reading, selection};
use crate::strmap::StrMap;
use crate::sv::aliyun::{Datapoint, Gauge, Sample, Timeline, INTERVAL};
use crate::textbuf::str_eq;

pub mod base;
mod wr;

pub use wr::Data as WrData;

verus! {

/// The metric namespace of load balancers.
pub const ACSITEM: &'static str = "acs_slb_dashboard";

/// Spacing of load balancer snapshots, in milliseconds.
pub const MSPERIOD: u64 = 60000;

/// The readings of one load balancer.
#[derive(Clone, Copy, PartialEq, Eq, Structural)]
pub struct Inner {
    /// Received, in kilobytes.
    pub rd: i32,
    /// Sent, in kilobytes.
    pub wr: i32,
    /// Packets received per second.
    pub rdtps: i32,
    /// Packets sent per second.
    pub wrtps: i32,
    /// Connections.
    pub conn: i32,
}

/// The readings of a load balancer not read yet.
pub open spec fn inner_zero() -> Inner {
    Inner { rd: 0, wr: 0, rdtps: 0, wrtps: 0, conn: 0 }
}

/// What an item name of a request selects.
#[derive(Clone, Copy, PartialEq, Eq, Structural)]
pub enum Cb {
    Rd,
    Wr,
    RdTps,
    WrTps,
    Conn,
}

/// The selection that an item name makes, if any.
pub open spec fn cb_of(me: Seq<char>) -> Option<Cb> {
    if me == "rd"@ {
        Some(Cb::Rd)
    } else if me == "wr"@ {
        Some(Cb::Wr)
    } else if me == "rdtps"@ {
        Some(Cb::RdTps)
    } else if me == "wrtps"@ {
        Some(Cb::WrTps)
    } else if me == "conn"@ {
        Some(Cb::Conn)
    } else {
        None
    }
}

/// Reading `cb` of `me`.
pub open spec fn read_of(me: Inner, cb: Cb) -> i32 {
    match cb {
        Cb::Rd => me.rd,
        Cb::Wr => me.wr,
        Cb::RdTps => me.rdtps,
        Cb::WrTps => me.wrtps,
        Cb::Conn => me.conn,
    }
}

impl Inner {
    pub fn new() -> (i: Inner)
        ensures
            i == inner_zero(),
    {
        Inner { rd: 0, wr: 0, rdtps: 0, wrtps: 0, conn: 0 }
    }

    pub fn rd(me: &Self, _dev: &str, _item: &str) -> (r: i32)
        ensures
            r == me.rd,
    {
        me.rd
    }

    pub fn wr(me: &Self, _dev: &str, _item: &str) -> (r: i32)
        ensures
            r == me.wr,
    {
        me.wr
    }

    pub fn rdtps(me: &Self, _dev: &str, _item: &str) -> (r: i32)
        ensures
            r == me.rdtps,
    {
        me.rdtps
    }

    pub fn wrtps(me: &Self, _dev: &str, _item: &str) -> (r: i32)
        ensures
            r == me.wrtps,
    {
        me.wrtps
    }

    pub fn conn(me: &Self, _dev: &str, _item: &str) -> (r: i32)
        ensures
            r == me.conn,
    {
        me.conn
    }

    /// The selection that item name `me` makes.
    pub fn get_cb(me: &str) -> (r: Option<Cb>)
        ensures
            r == cb_of(me@),
    {
        if str_eq(me, "rd") {
            Some(Cb::Rd)
        } else if str_eq(me, "wr") {
            Some(Cb::Wr)
        } else if str_eq(me, "rdtps") {
            Some(Cb::RdTps)
        } else if str_eq(me, "wrtps") {
            Some(Cb::WrTps)
        } else if str_eq(me, "conn") {
            Some(Cb::Conn)
        } else {
            None
        }
    }
}

/// Each item name of a load balancer query reads the field of that name of a snapshot `v`
/// of an instance (`rd`, `wr`, `rdtps`, `wrtps`, `conn`); any other name reads -1.
pub proof fn lemma_items_read_fields(v: Inner, name: Seq<char>)
    ensures
        reading::<Inner>(v, selection::<Inner>(("rd"@, None, None))->0) == v.rd as i64,
        reading::<Inner>(v, selection::<Inner>(("wr"@, None, None))->0) == v.wr as i64,
        reading::<Inner>(v, selection::<Inner>(("rdtps"@, None, None))->0) == v.rdtps as i64,
        reading::<Inner>(v, selection::<Inner>(("wrtps"@, None, None))->0) == v.wrtps as i64,
        reading::<Inner>(v, selection::<Inner>(("conn"@, None, None))->0) == v.conn as i64,
        name != "rd"@ && name != "wr"@ && name != "rdtps"@ && name != "wrtps"@ && name != "conn"@ ==> reading::<Inner>(
            v,
            selection::<Inner>((name, None, None))->0,
        ) == -1,
{
    reveal_strlit("rd");
    reveal_strlit("wr");
    reveal_strlit("rdtps");
    reveal_strlit("wrtps");
    reveal_strlit("conn");
    assert("wr"@[0] != "rd"@[0]);
    assert("rdtps"@.len() != "rd"@.len());
    assert("rdtps"@.len() != "wr"@.len());
    assert("wrtps"@.len() != "rd"@.len());
    assert("wrtps"@.len() != "wr"@.len());
    assert("wrtps"@[0] != "rdtps"@[0]);
    assert("conn"@.len() != "rd"@.len());
    assert("conn"@.len() != "wr"@.len());
    assert("conn"@.len() != "rdtps"@.len());
    assert("conn"@.len() != "wrtps"@.len());
}

impl Gauge for Inner {
    type Cb = Cb;

    open spec fn cb_spec(name: Seq<char>) -> Option<Cb> {
        cb_of(name)
    }

    open spec fn read_spec(&self, cb: Cb, dev: Seq<char>, item: Seq<char>) -> i32 {
        read_of(*self, cb)
    }

    fn callback(name: &str) -> (r: Option<Cb>) {
        Inner::get_cb(name)
    }

    fn read(&self, cb: Cb, dev: &str, item: &str) -> (r: i32) {
        match cb {
            Cb::Rd => Inner::rd(self, dev, item),
            Cb::Wr => Inner::wr(self, dev, item),
            Cb::RdTps => Inner::rdtps(self, dev, item),
            Cb::WrTps => Inner::wrtps(self, dev, item),
            Cb::Conn => Inner::conn(self, dev, item),
        }
    }
}

/// How a reading changes a load balancer's readings.
#[derive(Clone, Copy, PartialEq, Eq, Structural)]
pub enum SlbRule {
    /// Bits per second out, stored as kilobytes.
    Wr,
}

/// The load balancers of one snapshot, by instance id.
pub struct Slb {
    pub data: StrMap<Inner>,
}

impl View for Slb {
    type V = Map<Seq<char>, Inner>;

    open spec fn view(&self) -> Map<Seq<char>, Inner> {
        self.data@
    }
}

/// The snapshot after reading `p` by `rule`: a load balancer not in the snapshot yet
/// enters it with no readings first.
pub open spec fn slb_apply(v: Map<Seq<char>, Inner>, rule: SlbRule, p: Datapoint) -> Map<
    Seq<char>,
    Inner,
> {
    match (p.instance_id, p.average) {
        (Some(id), Some(a)) => {
            let old = if v.contains_key(id@) {
                v[id@]
            } else {
                inner_zero()
            };
            match rule {
                SlbRule::Wr => v.insert(id@, Inner { wr: crate::sv::aliyun::ecs::netif::bits_to_kb(a as i32), ..old }),
            }
        },
        _ => v,
    }
}

/// A load balancer's outbound traffic reading sets, of that load balancer only, the
/// kilobytes sent (bits per second over 8192, toward zero), one not in the snapshot yet
/// starting from all zero; its other readings, and every other load balancer, stay as
/// they were. A reading without an instance or an average changes nothing.
pub proof fn lemma_slb_rule(v: Map<Seq<char>, Inner>, p: Datapoint)
    ensures
        match (p.instance_id, p.average) {
            (Some(id), Some(a)) => {
                let before = if v.contains_key(id@) {
                    v[id@]
                } else {
                    Inner { rd: 0, wr: 0, rdtps: 0, wrtps: 0, conn: 0 }
                };
                let x = a as i32;
                let kb = if x >= 0 {
                    x / 8192
                } else {
                    -((-x) / 8192)
                };
                slb_apply(v, SlbRule::Wr, p) == v.insert(id@, (Inner { wr: kb as i32, ..before }))
            },
            _ => slb_apply(v, SlbRule::Wr, p) == v,
        },
{
    if let (Some(id), Some(a)) = (p.instance_id, p.average) {
        crate::sv::aliyun::ecs::netif::lemma_bits_to_kb(a as i32);
    }
}

impl Slb {
    pub fn new() -> (s: Slb)
        ensures
            s@ == Map::<Seq<char>, Inner>::empty(),
    {
        Slb { data: StrMap::new() }
    }
}

impl Sample for Slb {
    type Rule = SlbRule;

    open spec fn apply_spec(v: Map<Seq<char>, Inner>, rule: SlbRule, p: Datapoint) -> Map<
        Seq<char>,
        Inner,
    > {
        slb_apply(v, rule, p)
    }

    fn apply(&mut self, rule: &SlbRule, p: &Datapoint) {
        if let (Some(id), Some(a)) = (&p.instance_id, p.average) {
            let mut entry = match self.data.get(id.as_str()) {
                Some(e) => *e,
                None => Inner::new(),
            };
            match rule {
                SlbRule::Wr => wr::setter(&mut entry, a as i32),
            }
            self.data.insert(id.clone(), entry);
        }
    }
}

/// The snapshots of one round for load balancers: one per `MSPERIOD` after `basestamp`.
pub fn holder_new(basestamp: u64) -> (h: Timeline<Slb>)
    requires
        basestamp + INTERVAL <= u64::MAX,
    ensures
        h.base_spec() == basestamp,
        h.period_spec() == MSPERIOD,
        h.views() == Seq::new(
            (INTERVAL / MSPERIOD) as nat,
            |i: int| Map::<Seq<char>, Inner>::empty(),
        ),
{
    let mut slots: Vec<Slb> = Vec::new();
    let n = INTERVAL / MSPERIOD;
    let mut i: u64 = 0;
    while i < n
        invariant
            i <= n,
            n == INTERVAL / MSPERIOD,
            slots@.len() == i,
            forall|j: int| 0 <= j < i ==> (#[trigger] slots@[j])@ == Map::<Seq<char>, Inner>::empty(),
        decreases n - i,
    {
        slots.push(Slb::new());
        i = i + 1;
    }
    let h = Timeline::from_slots(basestamp, MSPERIOD, slots);
    assert(h.views() =~= Seq::new(
        (INTERVAL / MSPERIOD) as nat,
        |i: int| Map::<Seq<char>, Inner>::empty(),
    ));
    h
}

} // verus!
