//! ECS instances: CPU, memory, load, TCP connections, disks and network interfaces.
use vstd::prelude::*;

use crate::serv::sv::{reading, selection};
use crate::json::{elements, elements_of, get, json_of, member, opt_text, parse_json, text_of, Json};
use crate::strmap::StrMap;
use crate::sv::aliyun::texts_at;
use crate::sv::aliyun::{Datapoint, Gauge, Sample, Timeline, INTERVAL};
use crate::textbuf::{str_eq, spec_decimal, decimal};

pub mod base;
mod cpu;
mod load5m;
mod load15m;
mod tcp;
pub mod disk;
pub mod netif;

pub use cpu::Data as CpuData;
pub use load5m::Data as Load5mData;
pub use load15m::Data as Load15mData;
pub use tcp::Data as TcpData;

use disk::{Disk, DiskField};
use netif::{NetIf, NetIfField};

verus! {

/// The metric namespace of ECS instances.
pub const ACSITEM: &'static str = "acs_ecs_dashboard";

/// Spacing of ECS snapshots, in milliseconds.
pub const MSPERIOD: u64 = 300000;

/// The readings of one instance.
pub struct Inner {
    /// CPU usage, in tenths of a percent.
    pub cpu_ratio: i16,
    /// Memory usage, in tenths of a percent.
    pub mem_ratio: i16,
    /// 5-minute load, times 1000.
    pub load5m: i32,
    /// 15-minute load, times 1000.
    pub load15m: i32,
    /// TCP connections.
    pub tcp: i32,
    /// Disks, by device.
    pub disk: StrMap<Disk>,
    /// Network interfaces, by IP address.
    pub netif: StrMap<NetIf>,
}

/// The readings of one instance, with the disk and interface maps as maps.
pub struct InnerView {
    pub cpu_ratio: i16,
    pub mem_ratio: i16,
    pub load5m: i32,
    pub load15m: i32,
    pub tcp: i32,
    pub disk: Map<Seq<char>, Disk>,
    pub netif: Map<Seq<char>, NetIf>,
}

impl View for Inner {
    type V = InnerView;

    open spec fn view(&self) -> InnerView {
        InnerView {
            cpu_ratio: self.cpu_ratio,
            mem_ratio: self.mem_ratio,
            load5m: self.load5m,
            load15m: self.load15m,
            tcp: self.tcp,
            disk: self.disk@,
            netif: self.netif@,
        }
    }
}

/// The readings of an instance not read yet.
pub open spec fn inner_zero() -> InnerView {
    InnerView {
        cpu_ratio: 0,
        mem_ratio: 0,
        load5m: 0,
        load15m: 0,
        tcp: 0,
        disk: Map::empty(),
        netif: Map::empty(),
    }
}

/// How a reading changes the snapshot of ECS instances.
#[derive(Clone, Copy, PartialEq, Eq, Structural)]
pub enum EcsRule {
    CpuRatio,
    Load5m,
    Load15m,
    Tcp,
    Disk(DiskField),
    NetIf(NetIfField),
}

/// The readings of an instance after reading `p` by `rule`; `None` when `p` lacks what
/// the rule reads.
pub open spec fn inner_update(i: InnerView, rule: EcsRule, p: Datapoint) -> Option<InnerView> {
    match rule {
        EcsRule::CpuRatio => match p.scaled {
            Some(x) => Some(InnerView { cpu_ratio: x as i16, ..i }),
            None => None,
        },
        EcsRule::Load5m => match p.scaled {
            Some(x) => Some(InnerView { load5m: x, ..i }),
            None => None,
        },
        EcsRule::Load15m => match p.scaled {
            Some(x) => Some(InnerView { load15m: x, ..i }),
            None => None,
        },
        EcsRule::Tcp => match (p.state, p.average) {
            (Some(s), Some(a)) => if s@ == "TCP_TOTAL"@ {
                Some(InnerView { tcp: a as i32, ..i })
            } else {
                None
            },
            _ => None,
        },
        EcsRule::Disk(f) => match (p.device, p.average) {
            (Some(d), Some(a)) => {
                    let old_disk = if i.disk.contains_key(d@) {
                        i.disk[d@]
                    } else {
                        disk::disk_zero()
                    };
                    Some(InnerView { disk: i.disk.insert(d@, disk::disk_set(old_disk, f, a as i32)), ..i })
            },
            _ => None,
        },
        EcsRule::NetIf(f) => match (p.ip, p.average) {
            (Some(ip), Some(a)) => {
                    let old_if = if i.netif.contains_key(ip@) {
                        i.netif[ip@]
                    } else {
                        netif::netif_zero()
                    };
                    Some(
                        InnerView {
                            netif: i.netif.insert(ip@, netif::netif_set(old_if, f, a as i32)),
                            ..i
                        },
                    )
            },
            _ => None,
        },
    }
}

/// The CPU, load and TCP readings each set their own field of an instance and nothing
/// else: CPU usage and the 5- and 15-minute loads from the scaled average, the TCP
/// connections from the average of a `TCP_TOTAL` reading; a reading without what its
/// rule takes changes nothing.
pub proof fn lemma_ecs_scalar_rules(i: InnerView, p: Datapoint)
    ensures
        p.scaled matches Some(x) ==> inner_update(i, EcsRule::CpuRatio, p) == Some(
            (InnerView { cpu_ratio: x as i16, ..i }),
        ) && inner_update(i, EcsRule::Load5m, p) == Some((InnerView { load5m: x, ..i }))
            && inner_update(i, EcsRule::Load15m, p) == Some((InnerView { load15m: x, ..i })),
        p.scaled is None ==> inner_update(i, EcsRule::CpuRatio, p) is None && inner_update(
            i,
            EcsRule::Load5m,
            p,
        ) is None && inner_update(i, EcsRule::Load15m, p) is None,
        match (p.state, p.average) {
            (Some(st), Some(a)) => if st@ == "TCP_TOTAL"@ {
                inner_update(i, EcsRule::Tcp, p) == Some((InnerView { tcp: a as i32, ..i }))
            } else {
                inner_update(i, EcsRule::Tcp, p) is None
            },
            _ => inner_update(i, EcsRule::Tcp, p) is None,
        },
{
}

/// A disk reading with a device and an average sets, of that device only, the reading
/// its field names (usage or reads per second) to the average, a device not seen yet
/// starting from all zero; every other reading of the instance stays as it was.
pub proof fn lemma_ecs_disk_rules(i: InnerView, p: Datapoint, f: DiskField)
    ensures
        match (p.device, p.average) {
            (Some(d), Some(a)) => {
                let n = inner_update(i, EcsRule::Disk(f), p)->0;
                let before = if i.disk.contains_key(d@) {
                    i.disk[d@]
                } else {
                    Disk { rate: 0, rd: 0, wr: 0, rdtps: 0, wrtps: 0 }
                };
                &&& inner_update(i, EcsRule::Disk(f), p) is Some
                &&& n.disk.contains_key(d@)
                &&& f == DiskField::Rate ==> n.disk[d@] == (Disk { rate: a as i32, ..before })
                &&& f == DiskField::RdTps ==> n.disk[d@] == (Disk { rdtps: a as i32, ..before })
                &&& n.disk.remove(d@) == i.disk.remove(d@)
                &&& n == (InnerView { disk: n.disk, ..i })
            },
            _ => inner_update(i, EcsRule::Disk(f), p) is None,
        },
{
    if let (Some(d), Some(a)) = (p.device, p.average) {
        let n = inner_update(i, EcsRule::Disk(f), p)->0;
        assert(n.disk.remove(d@) =~= i.disk.remove(d@));
    }
}

/// An interface reading with an IP address and an average sets, of that interface only,
/// the reading its field names: kilobytes received or sent from bits per second (over
/// 8192, toward zero), packets received or sent per second as they are, an interface
/// not seen yet starting from all zero; every other reading of the instance stays as it
/// was.
pub proof fn lemma_ecs_netif_rules(i: InnerView, p: Datapoint, f: NetIfField)
    ensures
        match (p.ip, p.average) {
            (Some(ip), Some(a)) => {
                let n = inner_update(i, EcsRule::NetIf(f), p)->0;
                let before = if i.netif.contains_key(ip@) {
                    i.netif[ip@]
                } else {
                    NetIf { rd: 0, wr: 0, rdtps: 0, wrtps: 0 }
                };
                let v = a as i32;
                let kb = if v >= 0 {
                    v / 8192
                } else {
                    -((-v) / 8192)
                };
                &&& inner_update(i, EcsRule::NetIf(f), p) is Some
                &&& n.netif.contains_key(ip@)
                &&& f == NetIfField::Rd ==> n.netif[ip@] == (NetIf { rd: kb as i32, ..before })
                &&& f == NetIfField::Wr ==> n.netif[ip@] == (NetIf { wr: kb as i32, ..before })
                &&& f == NetIfField::RdTps ==> n.netif[ip@] == (NetIf { rdtps: v, ..before })
                &&& f == NetIfField::WrTps ==> n.netif[ip@] == (NetIf { wrtps: v, ..before })
                &&& n.netif.remove(ip@) == i.netif.remove(ip@)
                &&& n == (InnerView { netif: n.netif, ..i })
            },
            _ => inner_update(i, EcsRule::NetIf(f), p) is None,
        },
{
    if let (Some(ip), Some(a)) = (p.ip, p.average) {
        let n = inner_update(i, EcsRule::NetIf(f), p)->0;
        netif::lemma_bits_to_kb(a as i32);
        assert(n.netif.remove(ip@) =~= i.netif.remove(ip@));
    }
}

/// What an item name of a request selects.
#[derive(Clone, Copy, PartialEq, Eq, Structural)]
pub enum Cb {
    CpuRatio,
    MemRatio,
    Load5m,
    Load15m,
    Tcp,
    Disk,
    Netif,
}

/// The selection that an item name makes, if any.
pub open spec fn cb_of(me: Seq<char>) -> Option<Cb> {
    if me == "cpu_ratio"@ {
        Some(Cb::CpuRatio)
    } else if me == "mem_ratio"@ {
        Some(Cb::MemRatio)
    } else if me == "load5m"@ {
        Some(Cb::Load5m)
    } else if me == "load15m"@ {
        Some(Cb::Load15m)
    } else if me == "tcp"@ {
        Some(Cb::Tcp)
    } else if me == "disk"@ {
        Some(Cb::Disk)
    } else if me == "netif"@ {
        Some(Cb::Netif)
    } else {
        None
    }
}

/// A disk reading by sub-item name; -1 for an unknown name.
pub open spec fn disk_item(d: Disk, item: Seq<char>) -> i32 {
    if item == "ratio"@ {
        d.rate
    } else if item == "rd"@ {
        d.rd
    } else if item == "wr"@ {
        d.wr
    } else if item == "rdtps"@ {
        d.rdtps
    } else if item == "wrtps"@ {
        d.wrtps
    } else {
        -1i32
    }
}

/// An interface reading by sub-item name; -1 for an unknown name.
pub open spec fn netif_item(n: NetIf, item: Seq<char>) -> i32 {
    if item == "rd"@ {
        n.rd
    } else if item == "wr"@ {
        n.wr
    } else if item == "rdtps"@ {
        n.rdtps
    } else if item == "wrtps"@ {
        n.wrtps
    } else {
        -1i32
    }
}

/// Reading `cb` of `me` for device `dev` and sub-item `item`; -1 when the device is
/// unknown.
pub open spec fn read_of(me: InnerView, cb: Cb, dev: Seq<char>, item: Seq<char>) -> i32 {
    match cb {
        Cb::CpuRatio => me.cpu_ratio as i32,
        Cb::MemRatio => me.mem_ratio as i32,
        Cb::Load5m => me.load5m,
        Cb::Load15m => me.load15m,
        Cb::Tcp => me.tcp,
        Cb::Disk => if me.disk.contains_key(dev) {
            disk_item(me.disk[dev], item)
        } else {
            -1i32
        },
        Cb::Netif => if me.netif.contains_key(dev) {
            netif_item(me.netif[dev], item)
        } else {
            -1i32
        },
    }
}

impl Inner {
    pub fn new() -> (i: Inner)
        ensures
            i@ == inner_zero(),
    {
        Inner {
            cpu_ratio: 0,
            mem_ratio: 0,
            load5m: 0,
            load15m: 0,
            tcp: 0,
            disk: StrMap::new(),
            netif: StrMap::new(),
        }
    }

    pub fn cpu_ratio(me: &Self, _dev: &str, _item: &str) -> (r: i32)
        ensures
            r == me.cpu_ratio as i32,
    {
        me.cpu_ratio as i32
    }

    pub fn mem_ratio(me: &Self, _dev: &str, _item: &str) -> (r: i32)
        ensures
            r == me.mem_ratio as i32,
    {
        me.mem_ratio as i32
    }

    pub fn load5m(me: &Self, _dev: &str, _item: &str) -> (r: i32)
        ensures
            r == me.load5m,
    {
        me.load5m
    }

    pub fn load15m(me: &Self, _dev: &str, _item: &str) -> (r: i32)
        ensures
            r == me.load15m,
    {
        me.load15m
    }

    pub fn tcp(me: &Self, _dev: &str, _item: &str) -> (r: i32)
        ensures
            r == me.tcp,
    {
        me.tcp
    }

    /// Disk reading `item` of device `dev`.
    pub fn disk(me: &Self, dev: &str, item: &str) -> (r: i32)
        ensures
            r == read_of(me@, Cb::Disk, dev@, item@),
    {
        match me.disk.get(dev) {
            Some(v) => {
                if str_eq(item, "ratio") {
                    v.rate
                } else if str_eq(item, "rd") {
                    v.rd
                } else if str_eq(item, "wr") {
                    v.wr
                } else if str_eq(item, "rdtps") {
                    v.rdtps
                } else if str_eq(item, "wrtps") {
                    v.wrtps
                } else {
                    -1
                }
            },
            None => -1,
        }
    }

    /// Interface reading `item` of IP address `dev`.
    pub fn netif(me: &Self, dev: &str, item: &str) -> (r: i32)
        ensures
            r == read_of(me@, Cb::Netif, dev@, item@),
    {
        match me.netif.get(dev) {
            Some(v) => {
                if str_eq(item, "rd") {
                    v.rd
                } else if str_eq(item, "wr") {
                    v.wr
                } else if str_eq(item, "rdtps") {
                    v.rdtps
                } else if str_eq(item, "wrtps") {
                    v.wrtps
                } else {
                    -1
                }
            },
            None => -1,
        }
    }

    /// The selection that item name `me` makes.
    pub fn get_cb(me: &str) -> (r: Option<Cb>)
        ensures
            r == cb_of(me@),
    {
        if str_eq(me, "cpu_ratio") {
            Some(Cb::CpuRatio)
        } else if str_eq(me, "mem_ratio") {
            Some(Cb::MemRatio)
        } else if str_eq(me, "load5m") {
            Some(Cb::Load5m)
        } else if str_eq(me, "load15m") {
            Some(Cb::Load15m)
        } else if str_eq(me, "tcp") {
            Some(Cb::Tcp)
        } else if str_eq(me, "disk") {
            Some(Cb::Disk)
        } else if str_eq(me, "netif") {
            Some(Cb::Netif)
        } else {
            None
        }
    }

    /// Takes reading `p` by `rule`; leaves the readings as they are when `p` lacks what
    /// the rule reads.
    pub fn update(&mut self, rule: EcsRule, p: &Datapoint)
        ensures
            final(self)@ == (match inner_update(old(self)@, rule, *p) {
                Some(n) => n,
                None => old(self)@,
            }),
    {
        match rule {
            EcsRule::CpuRatio => {
                if let Some(x) = p.scaled {
                    cpu::setter(self, x);
                }
            },
            EcsRule::Load5m => {
                if let Some(x) = p.scaled {
                    self.load5m = x;
                }
            },
            EcsRule::Load15m => {
                if let Some(x) = p.scaled {
                    load15m::setter(self, x);
                }
            },
            EcsRule::Tcp => {
                if let (Some(s), Some(a)) = (&p.state, p.average) {
                    if str_eq(s.as_str(), "TCP_TOTAL") {
                        self.tcp = a as i32;
                    }
                }
            },
            EcsRule::Disk(f) => {
                if let (Some(d), Some(a)) = (&p.device, p.average) {
                    let mut entry = match self.disk.get(d.as_str()) {
                        Some(e) => *e,
                        None => Disk::new(),
                    };
                    entry.set(f, a as i32);
                    self.disk.insert(d.clone(), entry);
                }
            },
            EcsRule::NetIf(f) => {
                if let (Some(ip), Some(a)) = (&p.ip, p.average) {
                    let mut entry = match self.netif.get(ip.as_str()) {
                        Some(e) => *e,
                        None => NetIf::new(),
                    };
                    entry.set(f, a as i32);
                    self.netif.insert(ip.clone(), entry);
                }
            },
        }
    }
}

impl Gauge for Inner {
    type Cb = Cb;

    open spec fn cb_spec(name: Seq<char>) -> Option<Cb> {
        cb_of(name)
    }

    open spec fn read_spec(&self, cb: Cb, dev: Seq<char>, item: Seq<char>) -> i32 {
        read_of(self@, cb, dev, item)
    }

    fn callback(name: &str) -> (r: Option<Cb>) {
        Inner::get_cb(name)
    }

    fn read(&self, cb: Cb, dev: &str, item: &str) -> (r: i32) {
        match cb {
            Cb::CpuRatio => Inner::cpu_ratio(self, dev, item),
            Cb::MemRatio => Inner::mem_ratio(self, dev, item),
            Cb::Load5m => Inner::load5m(self, dev, item),
            Cb::Load15m => Inner::load15m(self, dev, item),
            Cb::Tcp => Inner::tcp(self, dev, item),
            Cb::Disk => Inner::disk(self, dev, item),
            Cb::Netif => Inner::netif(self, dev, item),
        }
    }
}

/// Each item name of an ECS query reads its own reading of a snapshot `v` of an
/// instance: `cpu_ratio`, `mem_ratio`, `load5m`, `load15m` and `tcp` the field of that
/// name; `disk` with a device and `ratio`, `rd`, `wr`, `rdtps` or `wrtps` that reading
/// of the device (usage, read, written, reads and writes per second); `netif` with an
/// IP address and `rd`, `wr`, `rdtps` or `wrtps` that reading of the interface
/// (received, sent, packets received and sent per second). An unknown device or
/// interface, another sub-item name, or another item name, reads -1.
pub proof fn lemma_ecs_items_read_fields(v: Inner, dev: Seq<char>, sub: Seq<char>)
    ensures
        reading::<Inner>(v, selection::<Inner>(("cpu_ratio"@, None, None))->0) == v.cpu_ratio as i64,
        reading::<Inner>(v, selection::<Inner>(("mem_ratio"@, None, None))->0) == v.mem_ratio as i64,
        reading::<Inner>(v, selection::<Inner>(("load5m"@, None, None))->0) == v.load5m as i64,
        reading::<Inner>(v, selection::<Inner>(("load15m"@, None, None))->0) == v.load15m as i64,
        reading::<Inner>(v, selection::<Inner>(("tcp"@, None, None))->0) == v.tcp as i64,
        v@.disk.contains_key(dev) ==> {
            let d = v@.disk[dev];
            &&& reading::<Inner>(v, selection::<Inner>(("disk"@, Some(dev), Some("ratio"@)))->0)
                == d.rate as i64
            &&& reading::<Inner>(v, selection::<Inner>(("disk"@, Some(dev), Some("rd"@)))->0)
                == d.rd as i64
            &&& reading::<Inner>(v, selection::<Inner>(("disk"@, Some(dev), Some("wr"@)))->0)
                == d.wr as i64
            &&& reading::<Inner>(v, selection::<Inner>(("disk"@, Some(dev), Some("rdtps"@)))->0)
                == d.rdtps as i64
            &&& reading::<Inner>(v, selection::<Inner>(("disk"@, Some(dev), Some("wrtps"@)))->0)
                == d.wrtps as i64
        },
        v@.netif.contains_key(dev) ==> {
            let n = v@.netif[dev];
            &&& reading::<Inner>(v, selection::<Inner>(("netif"@, Some(dev), Some("rd"@)))->0)
                == n.rd as i64
            &&& reading::<Inner>(v, selection::<Inner>(("netif"@, Some(dev), Some("wr"@)))->0)
                == n.wr as i64
            &&& reading::<Inner>(v, selection::<Inner>(("netif"@, Some(dev), Some("rdtps"@)))->0)
                == n.rdtps as i64
            &&& reading::<Inner>(v, selection::<Inner>(("netif"@, Some(dev), Some("wrtps"@)))->0)
                == n.wrtps as i64
        },
        !v@.disk.contains_key(dev) ==> reading::<Inner>(
            v,
            selection::<Inner>(("disk"@, Some(dev), Some(sub)))->0,
        ) == -1,
        !v@.netif.contains_key(dev) ==> reading::<Inner>(
            v,
            selection::<Inner>(("netif"@, Some(dev), Some(sub)))->0,
        ) == -1,
        sub != "cpu_ratio"@ && sub != "mem_ratio"@ && sub != "load5m"@ && sub != "load15m"@ && sub
            != "tcp"@ && sub != "disk"@ && sub != "netif"@ ==> reading::<Inner>(
            v,
            selection::<Inner>((sub, None, None))->0,
        ) == -1 && reading::<Inner>(v, selection::<Inner>((sub, Some(dev), Some(sub)))->0) == -1,
        sub != "ratio"@ && sub != "rd"@ && sub != "wr"@ && sub != "rdtps"@ && sub != "wrtps"@
            ==> reading::<Inner>(v, selection::<Inner>(("disk"@, Some(dev), Some(sub)))->0) == -1
            && reading::<Inner>(v, selection::<Inner>(("netif"@, Some(dev), Some(sub)))->0) == -1,
{
    reveal_strlit("cpu_ratio");
    reveal_strlit("mem_ratio");
    reveal_strlit("load5m");
    reveal_strlit("load15m");
    reveal_strlit("tcp");
    reveal_strlit("disk");
    reveal_strlit("netif");
    reveal_strlit("ratio");
    reveal_strlit("rd");
    reveal_strlit("wr");
    reveal_strlit("rdtps");
    reveal_strlit("wrtps");
    assert("mem_ratio"@[0] != "cpu_ratio"@[0]);
    assert("load5m"@.len() != "cpu_ratio"@.len());
    assert("load5m"@.len() != "mem_ratio"@.len());
    assert("load15m"@.len() != "cpu_ratio"@.len());
    assert("load15m"@.len() != "mem_ratio"@.len());
    assert("load15m"@.len() != "load5m"@.len());
    assert("tcp"@.len() != "cpu_ratio"@.len());
    assert("tcp"@.len() != "mem_ratio"@.len());
    assert("tcp"@.len() != "load5m"@.len());
    assert("tcp"@.len() != "load15m"@.len());
    assert("disk"@.len() != "cpu_ratio"@.len());
    assert("disk"@.len() != "mem_ratio"@.len());
    assert("disk"@.len() != "load5m"@.len());
    assert("disk"@.len() != "load15m"@.len());
    assert("disk"@.len() != "tcp"@.len());
    assert("netif"@.len() != "cpu_ratio"@.len());
    assert("netif"@.len() != "mem_ratio"@.len());
    assert("netif"@.len() != "load5m"@.len());
    assert("netif"@.len() != "load15m"@.len());
    assert("netif"@.len() != "tcp"@.len());
    assert("netif"@.len() != "disk"@.len());
    assert("rd"@.len() != "ratio"@.len());
    assert("wr"@.len() != "ratio"@.len());
    assert("wr"@[0] != "rd"@[0]);
    assert("rdtps"@[1] != "ratio"@[1]);
    assert("rdtps"@.len() != "rd"@.len());
    assert("rdtps"@.len() != "wr"@.len());
    assert("wrtps"@[0] != "ratio"@[0]);
    assert("wrtps"@.len() != "rd"@.len());
    assert("wrtps"@.len() != "wr"@.len());
    assert("wrtps"@[0] != "rdtps"@[0]);
}

/// The ECS instances of one snapshot, by instance id.
pub struct Ecs {
    pub data: StrMap<Inner>,
}

impl View for Ecs {
    type V = Map<Seq<char>, InnerView>;

    open spec fn view(&self) -> Map<Seq<char>, InnerView> {
        self.data@.map_values(|i: Inner| i@)
    }
}

/// The snapshot after reading `p` by `rule`: only an instance already in the snapshot
/// takes readings.
pub open spec fn ecs_apply(v: Map<Seq<char>, InnerView>, rule: EcsRule, p: Datapoint) -> Map<
    Seq<char>,
    InnerView,
> {
    match p.instance_id {
        Some(id) => if v.contains_key(id@) {
            match inner_update(v[id@], rule, p) {
                Some(n) => v.insert(id@, n),
                None => v,
            }
        } else {
            v
        },
        None => v,
    }
}

impl Ecs {
    pub fn new() -> (e: Ecs)
        ensures
            e@ == Map::<Seq<char>, InnerView>::empty(),
    {
        let e = Ecs { data: StrMap::new() };
        assert(e@ =~= Map::<Seq<char>, InnerView>::empty());
        e
    }

    /// Adds instance `id` with no readings, in place of any readings it had.
    pub fn register(&mut self, id: String)
        ensures
            final(self)@ == old(self)@.insert(id@, inner_zero()),
    {
        self.data.insert(id, Inner::new());
        assert(self@ =~= old(self)@.insert(id@, inner_zero()));
    }
}

impl Sample for Ecs {
    type Rule = EcsRule;

    open spec fn apply_spec(v: Map<Seq<char>, InnerView>, rule: EcsRule, p: Datapoint) -> Map<
        Seq<char>,
        InnerView,
    > {
        ecs_apply(v, rule, p)
    }

    fn apply(&mut self, rule: &EcsRule, p: &Datapoint) {
        if let Some(id) = &p.instance_id {
            let ghost before = self.data@;
            if let Some(mut inner) = self.data.swap_value(id.as_str(), Inner::new()) {
                inner.update(*rule, p);
                let _ = self.data.swap_value(id.as_str(), inner);
                assert(self@ =~= ecs_apply(old(self)@, *rule, *p));
            }
        }
    }
}

/// The snapshots of one round for ECS instances: one per `MSPERIOD` after `basestamp`.
pub fn holder_new(basestamp: u64) -> (h: Timeline<Ecs>)
    requires
        basestamp + INTERVAL <= u64::MAX,
    ensures
        h.base_spec() == basestamp,
        h.period_spec() == MSPERIOD,
        h.views() == Seq::new(
            (INTERVAL / MSPERIOD) as nat,
            |i: int| Map::<Seq<char>, InnerView>::empty(),
        ),
{
    let mut slots: Vec<Ecs> = Vec::new();
    let n = INTERVAL / MSPERIOD;
    let mut i: u64 = 0;
    while i < n
        invariant
            i <= n,
            n == INTERVAL / MSPERIOD,
            slots@.len() == i,
            forall|j: int| 0 <= j < i ==> (#[trigger] slots@[j])@ == Map::<
                Seq<char>,
                InnerView,
            >::empty(),
        decreases n - i,
    {
        slots.push(Ecs::new());
        i = i + 1;
    }
    let h = Timeline::from_slots(basestamp, MSPERIOD, slots);
    assert(h.views() =~= Seq::new(
        (INTERVAL / MSPERIOD) as nat,
        |i: int| Map::<Seq<char>, InnerView>::empty(),
    ));
    h
}

/// The instance list query (`DescribeInstances`, 100 per page) of `region`, as the
/// command-line arguments of the Aliyun command-line client.
pub struct Meta;

impl Meta {
    pub fn argv_new(&self, region: String) -> (argv: Vec<String>)
        ensures
            argv@.map_values(|s: String| s@) == seq![
                "-region"@,
                region@,
                "-domain"@,
                "ecs.aliyuncs.com"@,
                "-apiName"@,
                "DescribeInstances"@,
                "-apiVersion"@,
                "2014-05-26"@,
                "Action"@,
                "DescribeInstances"@,
                "PageSize"@,
                "100"@,
            ],
    {
        let ghost r = region@;
        let mut argv: Vec<String> = Vec::new();
        argv.push("-region".to_owned());
        argv.push(region);
        argv.push("-domain".to_owned());
        argv.push("ecs.aliyuncs.com".to_owned());
        argv.push("-apiName".to_owned());
        argv.push("DescribeInstances".to_owned());
        argv.push("-apiVersion".to_owned());
        argv.push("2014-05-26".to_owned());
        argv.push("Action".to_owned());
        argv.push("DescribeInstances".to_owned());
        argv.push("PageSize".to_owned());
        argv.push("100".to_owned());
        assert(argv@.map_values(|s: String| s@) =~= seq![
            "-region"@,
            r,
            "-domain"@,
            "ecs.aliyuncs.com"@,
            "-apiName"@,
            "DescribeInstances"@,
            "-apiVersion"@,
            "2014-05-26"@,
            "Action"@,
            "DescribeInstances"@,
            "PageSize"@,
            "100"@,
        ]);
        argv
    }

    /// Adds each listed instance (the string `InstanceId`s of a `DescribeInstances`
    /// answer; `None` where the answer holds something else) to every snapshot.
    pub fn insert(&self, holder: &mut Timeline<Ecs>, ids: &Vec<Option<String>>)
        ensures
            final(holder).base_spec() == old(holder).base_spec(),
            final(holder).period_spec() == old(holder).period_spec(),
            final(holder).views() == ids@.fold_left(
                old(holder).views(),
                |acc: Seq<Map<Seq<char>, InnerView>>, id: Option<String>|
                    match id {
                        Some(s) => acc.map_values(
                            |m: Map<Seq<char>, InnerView>| m.insert(s@, inner_zero()),
                        ),
                        None => acc,
                    },
            ),
    {
        holder.register_all(ids);
    }
}

/// The number of instance list pages for `total` instances (`TotalCount`; `None` when
/// the answer holds no such number), 100 to a page.
pub open spec fn page_count_spec(total: Option<u64>) -> u64 {
    match total {
        Some(t) => if t % 100 == 0 {
            t / 100
        } else {
            (t / 100 + 1) as u64
        },
        None => 0,
    }
}

/// The pages hold every instance and no page is empty: `total` instances take the
/// fewest pages of 100 that hold them.
pub proof fn lemma_page_count(total: u64)
    ensures
        page_count_spec(Some(total)) * 100 >= total,
        total > 0 ==> (page_count_spec(Some(total)) - 1) * 100 < total,
        total == 0 ==> page_count_spec(Some(total)) == 0,
{
}

/// The number of instance list pages for `total` instances, 100 to a page; none when the
/// answer holds no count.
pub fn page_count(total: Option<u64>) -> (n: u64)
    ensures
        n == page_count_spec(total),
{
    match total {
        Some(t) => {
            if t % 100 == 0 {
                t / 100
            } else {
                t / 100 + 1
            }
        },
        None => 0,
    }
}

/// The instance list query `argv` for page `page`.
pub fn page_argv(argv: &Vec<String>, page: u64) -> (out: Vec<String>)
    ensures
        out@.map_values(|s: String| s@) == argv@.map_values(|s: String| s@).push(
            "PageNumber"@,
        ).push(spec_decimal(page as int)),
{
    let mut out: Vec<String> = Vec::new();
    let mut i: usize = 0;
    while i < argv.len()
        invariant
            i <= argv@.len(),
            out@.len() == i,
            forall|j: int| 0 <= j < i ==> (#[trigger] out@[j])@ == argv@[j]@,
        decreases argv@.len() - i,
    {
        out.push(argv[i].clone());
        i = i + 1;
    }
    out.push("PageNumber".to_owned());
    out.push(decimal(page as i128));
    assert(out@.map_values(|s: String| s@) =~= argv@.map_values(|s: String| s@).push(
        "PageNumber"@,
    ).push(spec_decimal(page as int)));
    out
}

/// The instance list page asked for after page `page`, of `pages` pages: the next one,
/// none after the last.
pub open spec fn next_page_spec(pages: u64, page: u64) -> Option<u64> {
    if page < pages {
        Some((page + 1) as u64)
    } else {
        None
    }
}

/// The instance list page asked for after page `page`, of `pages` pages.
pub fn next_page(pages: u64, page: u64) -> (r: Option<u64>)
    ensures
        r == next_page_spec(pages, page),
{
    if page < pages {
        Some(page + 1)
    } else {
        None
    }
}

/// The pages asked for after page `page`, of `pages` pages, each by `next_page` from the
/// one before.
pub open spec fn pages_after(pages: u64, page: u64) -> Seq<u64>
    decreases pages - page,
{
    if page < pages {
        seq![(page + 1) as u64] + pages_after(pages, (page + 1) as u64)
    } else {
        Seq::empty()
    }
}

/// After page `page`, the pages `page + 1` to `pages` follow once each, in order.
proof fn lemma_pages_after(pages: u64, page: u64)
    requires
        page <= pages,
    ensures
        pages_after(pages, page) =~= Seq::new((pages - page) as nat, |i: int| (page + 1 + i) as u64),
    decreases pages - page,
{
    if page < pages {
        lemma_pages_after(pages, (page + 1) as u64);
    }
}

/// The instance list is read page by page: the first answer is page 1, its count gives
/// `page_count` pages, and `next_page` then asks for pages 2 to the last, once each, in
/// order.
pub proof fn lemma_pages_in_order(total: Option<u64>)
    requires
        page_count_spec(total) >= 1,
    ensures
        ({
            let n = page_count_spec(total);
            &&& pages_after(n, 1).len() == n - 1
            &&& forall|i: int| 0 <= i < n - 1 ==> #[trigger] pages_after(n, 1)[i] == i + 2
        }),
{
    lemma_pages_after(page_count_spec(total), 1);
}

/// The instance count of a `TotalCount` member, as the instance list reads it: an
/// unsigned integer as it is, another number as 0, anything else as no count.
pub open spec fn total_of(j: Json) -> Option<u64> {
    match j {
        Json::UInt(u) => Some(u),
        Json::Int(_) => Some(0),
        Json::OtherNum => Some(0),
        _ => None,
    }
}

/// The instance count of an instance list answer of bytes `b`: `None` when the bytes
/// are not JSON or are null, else the count of its `TotalCount` (`None` when that is no
/// number).
pub open spec fn page_total_spec(b: Seq<u8>) -> Option<Option<u64>> {
    match json_of(b) {
        Some(v) => if v is Null {
            None
        } else {
            Some(total_of(member(v, "TotalCount"@)))
        },
        None => None,
    }
}

/// The instance count of an instance list answer of bytes `b`.
pub fn page_total(b: &[u8]) -> (r: Option<Option<u64>>)
    ensures
        r == page_total_spec(b@),
{
    match parse_json(b) {
        Some(v) => match v {
            Json::Null => None,
            _ => {
                let t = match get(&v, "TotalCount") {
                    Some(Json::UInt(u)) => Some(*u),
                    Some(Json::Int(_)) => Some(0),
                    Some(Json::OtherNum) => Some(0),
                    _ => None,
                };
                Some(t)
            },
        },
        None => None,
    }
}

/// The `InstanceId`s of an instance list answer `v`: of each entry of
/// `Instances.Instance` up to the first null, its `InstanceId` text, `None` for one that
/// is not a string.
pub open spec fn instance_ids(v: Json) -> Seq<Option<Seq<char>>> {
    elements(member(member(v, "Instances"@), "Instance"@)).map_values(
        |e: Json| text_of(member(e, "InstanceId"@)),
    )
}

/// The `InstanceId`s of an instance list answer `v`.
pub fn instance_ids_of(v: &Json) -> (r: Vec<Option<String>>)
    ensures
        r@.map_values(|o: Option<String>| opt_text(o)) == instance_ids(*v),
{
    let list: Option<&Json> = match get(v, "Instances") {
        Some(x) => get(x, "Instance"),
        None => None,
    };
    let items: Vec<&Json> = match list {
        Some(x) => elements_of(x),
        None => Vec::new(),
    };
    let ghost e = elements(member(member(*v, "Instances"@), "Instance"@));
    assert(member(Json::Null, "Instance"@) == Json::Null);
    assert(items@.len() == e.len());
    let r = texts_at(&items, "InstanceId");
    assert(items@.map_values(|x: &Json| text_of(member(*x, "InstanceId"@))) =~= e.map_values(
        |x: Json| text_of(member(x, "InstanceId"@)),
    ));
    r
}

/// The `InstanceId`s of an instance list answer of bytes `b`; `None` when the bytes are
/// not JSON or are null.
pub fn instances_of(b: &[u8]) -> (r: Option<Vec<Option<String>>>)
    ensures
        match json_of(b@) {
            Some(v) => if v is Null {
                r is None
            } else {
                r matches Some(ids) && ids@.map_values(|o: Option<String>| opt_text(o))
                    == instance_ids(v)
            },
            None => r is None,
        },
{
    match parse_json(b) {
        Some(v) => match v {
            Json::Null => None,
            _ => Some(instance_ids_of(&v)),
        },
        None => None,
    }
}

} // verus!
