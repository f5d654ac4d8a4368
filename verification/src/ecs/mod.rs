//! The per-instance ECS collector: every instance keeps its own timeline of readings, one
//! snapshot every 15 seconds, and a round ends in a flat list of results, one per
//! instance and snapshot.
use vstd::prelude::*;

use crate::strmap::StrMap;
use crate::sv::aliyun::ecs::disk::Disk;
use crate::sv::aliyun::ecs::netif::NetIf as IfReadings;
use crate::sv::aliyun::{stamp_of, Timeline, INTERVAL};

pub mod disk;
pub mod load5m;
pub mod netif;

verus! {

/// Spacing of an instance's snapshots, in milliseconds.
pub const PERIOD: u64 = 15000;

/// The readings of one instance at one time.
pub struct Inner {
    /// CPU usage, in tenths of a percent.
    pub cpu_rate: i16,
    /// Memory usage, in tenths of a percent.
    pub mem_rate: i16,
    /// 5-minute load, times 1000.
    pub load5m: i32,
    /// 15-minute load, times 1000.
    pub load15m: i32,
    /// TCP connections.
    pub tcp: i32,
    /// Disks, by device.
    pub disk: StrMap<Disk>,
    /// Network interfaces, by IP address.
    pub netif: StrMap<IfReadings>,
}

/// Whether `i` holds no reading yet.
pub open spec fn inner_is_new(i: Inner) -> bool {
    &&& i.cpu_rate == 0
    &&& i.mem_rate == 0
    &&& i.load5m == 0
    &&& i.load15m == 0
    &&& i.tcp == 0
    &&& i.disk.entries().len() == 0
    &&& i.netif.entries().len() == 0
}

impl Inner {
    pub fn new() -> (i: Inner)
        ensures
            inner_is_new(i),
    {
        Inner {
            cpu_rate: 0,
            mem_rate: 0,
            load5m: 0,
            load15m: 0,
            tcp: 0,
            disk: StrMap::new(),
            netif: StrMap::new(),
        }
    }
}

/// One instance: its snapshots of the round, and its disks (device to disk id).
pub struct Ecs {
    pub data: Timeline<Inner>,
    pub disk: StrMap<String>,
}

/// Whether `e` is an instance as a round starting at `basestamp` begins it: a snapshot
/// every `PERIOD` after the start, each holding no reading, and no disk.
pub open spec fn ecs_is_new(e: Ecs, basestamp: u64) -> bool {
    &&& e.data.base_spec() == basestamp
    &&& e.data.period_spec() == PERIOD
    &&& e.data.slots_spec().len() == INTERVAL / PERIOD
    &&& forall|i: int| 0 <= i < e.data.slots_spec().len() ==> inner_is_new(#[trigger] e.data.slots_spec()[i])
    &&& e.disk@ == Map::<Seq<char>, String>::empty()
}

impl Ecs {
    /// An instance as a round starting at `basestamp` begins it.
    pub fn new(basestamp: u64) -> (e: Ecs)
        requires
            basestamp + INTERVAL <= u64::MAX,
        ensures
            ecs_is_new(e, basestamp),
    {
        let mut slots: Vec<Inner> = Vec::new();
        let n = INTERVAL / PERIOD;
        let mut i: u64 = 0;
        while i < n
            invariant
                i <= n,
                n == INTERVAL / PERIOD,
                slots@.len() == i,
                forall|j: int| 0 <= j < i ==> inner_is_new(#[trigger] slots@[j]),
            decreases n - i,
        {
            slots.push(Inner::new());
            i = i + 1;
        }
        Ecs { data: Timeline::from_slots(basestamp, PERIOD, slots), disk: StrMap::new() }
    }
}

/// Whether `o` names instance `k`.
pub open spec fn names(o: Option<String>, k: Seq<char>) -> bool {
    match o {
        Some(s) => s@ == k,
        None => false,
    }
}

/// Whether `ids` lists instance `k`.
pub open spec fn listed(ids: Seq<Option<String>>, k: Seq<char>) -> bool {
    exists|i: int| 0 <= i < ids.len() && names(#[trigger] ids[i], k)
}

/// The instance list query (`DescribeInstances`, 100 per page) of `region`, as the
/// command-line arguments of the Aliyun command-line client.
pub struct Meta;

impl Meta {
    pub fn argv_new(&self, region: String) -> (argv: Vec<String>)
        ensures
            argv@.map_values(|s: String| s@) == seq![
                "-region"@,
                region@,
                "-domain"@,
                "ecs.aliyuncs.com"@,
                "-apiName"@,
                "DescribeInstances"@,
                "-apiVersion"@,
                "2014-05-26"@,
                "Action"@,
                "DescribeInstances"@,
                "PageSize"@,
                "100"@,
            ],
    {
        let ghost r = region@;
        let mut argv: Vec<String> = Vec::new();
        argv.push("-region".to_owned());
        argv.push(region);
        argv.push("-domain".to_owned());
        argv.push("ecs.aliyuncs.com".to_owned());
        argv.push("-apiName".to_owned());
        argv.push("DescribeInstances".to_owned());
        argv.push("-apiVersion".to_owned());
        argv.push("2014-05-26".to_owned());
        argv.push("Action".to_owned());
        argv.push("DescribeInstances".to_owned());
        argv.push("PageSize".to_owned());
        argv.push("100".to_owned());
        assert(argv@.map_values(|s: String| s@) =~= seq![
            "-region"@,
            r,
            "-domain"@,
            "ecs.aliyuncs.com"@,
            "-apiName"@,
            "DescribeInstances"@,
            "-apiVersion"@,
            "2014-05-26"@,
            "Action"@,
            "DescribeInstances"@,
            "PageSize"@,
            "100"@,
        ]);
        argv
    }

    /// Starts every listed instance (the string `InstanceId`s of a `DescribeInstances`
    /// answer; `None` where the answer holds something else) afresh for the round
    /// starting at `basestamp`; other instances stay as they are.
    pub fn insert(&self, holder: &mut StrMap<Ecs>, ids: &Vec<Option<String>>, basestamp: u64)
        requires
            basestamp + INTERVAL <= u64::MAX,
        ensures
            forall|k: Seq<char>|
                #[trigger] final(holder)@.contains_key(k) <==> old(holder)@.contains_key(k) || listed(
                    ids@,
                    k,
                ),
            forall|k: Seq<char>| listed(ids@, k) ==> ecs_is_new(#[trigger] final(holder)@[k], basestamp),
            forall|k: Seq<char>|
                old(holder)@.contains_key(k) && !listed(ids@, k) ==> #[trigger] final(holder)@[k]
                    == old(holder)@[k],
    {
        let mut i: usize = 0;
        while i < ids.len()
            invariant
                i <= ids@.len(),
                basestamp + INTERVAL <= u64::MAX,
                forall|k: Seq<char>|
                    #[trigger] holder@.contains_key(k) <==> old(holder)@.contains_key(k) || listed(
                        ids@.take(i as int),
                        k,
                    ),
                forall|k: Seq<char>|
                    listed(ids@.take(i as int), k) ==> ecs_is_new(#[trigger] holder@[k], basestamp),
                forall|k: Seq<char>|
                    old(holder)@.contains_key(k) && !listed(ids@.take(i as int), k) ==> #[trigger] holder@[k]
                        == old(holder)@[k],
            decreases ids@.len() - i,
        {
            let ghost before = ids@.take(i as int);
            let ghost after = ids@.take(i + 1);
            assert forall|k: Seq<char>| #[trigger] listed(after, k) <==> listed(before, k) || names(
                ids@[i as int],
                k,
            ) by {
                if listed(after, k) {
                    let j = choose|j: int| 0 <= j < after.len() && names(#[trigger] after[j], k);
                    if j < i {
                        assert(before[j] == after[j]);
                    }
                }
                if listed(before, k) {
                    let j = choose|j: int| 0 <= j < before.len() && names(#[trigger] before[j], k);
                    assert(after[j] == before[j]);
                }
                if names(ids@[i as int], k) {
                    assert(after[i as int] == ids@[i as int]);
                }
            }
            if let Some(id) = &ids[i] {
                holder.insert(id.clone(), Ecs::new(basestamp));
            }
            i = i + 1;
        }
        assert(ids@.take(ids@.len() as int) =~= ids@);
    }
}

/// The metric query parameters every reading starts with, as the command-line
/// arguments of the Aliyun command-line client: `QueryMetricList` on ECS readings every
/// 15 seconds, the metric name to follow.
pub open spec fn base_args(region: Seq<char>) -> Seq<Seq<char>> {
    seq![
        "-region"@,
        region,
        "-domain"@,
        "metrics.aliyuncs.com"@,
        "-apiName"@,
        "QueryMetricList"@,
        "-apiVersion"@,
        "2017-03-01"@,
        "Action"@,
        "QueryMetricList"@,
        "Project"@,
        "acs_ecs_dashboard"@,
        "Period"@,
        "15"@,
        "Length"@,
        "1000"@,
        "Metric"@,
    ]
}

/// The metric query parameters every reading starts with.
pub fn argv_new_base(region: String) -> (argv: Vec<String>)
    ensures
        argv@.map_values(|s: String| s@) == base_args(region@),
{
    let ghost r = region@;
    let mut argv: Vec<String> = Vec::new();
    argv.push("-region".to_owned());
    argv.push(region);
    argv.push("-domain".to_owned());
    argv.push("metrics.aliyuncs.com".to_owned());
    argv.push("-apiName".to_owned());
    argv.push("QueryMetricList".to_owned());
    argv.push("-apiVersion".to_owned());
    argv.push("2017-03-01".to_owned());
    argv.push("Action".to_owned());
    argv.push("QueryMetricList".to_owned());
    argv.push("Project".to_owned());
    argv.push("acs_ecs_dashboard".to_owned());
    argv.push("Period".to_owned());
    argv.push("15".to_owned());
    argv.push("Length".to_owned());
    argv.push("1000".to_owned());
    argv.push("Metric".to_owned());
    assert(argv@.map_values(|s: String| s@) =~= base_args(r));
    argv
}

/// A disk of a result: its device and readings.
pub struct ResDisk {
    pub id: String,
    pub rate: i32,
    pub rd: i32,
    pub wr: i32,
    pub rdtps: i32,
    pub wrtps: i32,
}

/// An interface of a result: its address and readings.
pub struct ResNetIf {
    pub ip: String,
    pub rd: i32,
    pub wr: i32,
    pub rdtps: i32,
    pub wrtps: i32,
}

/// The readings of one instance at one time, as a round reports them.
pub struct Res {
    pub id: String,
    /// The stamp, in seconds.
    pub ts: i32,
    pub cpu_rate: i16,
    pub mem_rate: i16,
    pub load5m: i32,
    pub load15m: i32,
    pub tcp: i32,
    pub disk: Vec<ResDisk>,
    pub netif: Vec<ResNetIf>,
}

impl Res {
    pub fn new(
        id: String,
        ts: i32,
        cpu_rate: i16,
        mem_rate: i16,
        load5m: i32,
        load15m: i32,
        tcp: i32,
        disk: Vec<ResDisk>,
        netif: Vec<ResNetIf>,
    ) -> (r: Res)
        ensures
            r.id == id,
            r.ts == ts,
            r.cpu_rate == cpu_rate,
            r.mem_rate == mem_rate,
            r.load5m == load5m,
            r.load15m == load15m,
            r.tcp == tcp,
            r.disk == disk,
            r.netif == netif,
    {
        Res { id, ts, cpu_rate, mem_rate, load5m, load15m, tcp, disk, netif }
    }
}

/// The report of a round: its class and its results.
pub struct ResFinal {
    pub class: String,
    pub res: Vec<Res>,
}

impl ResFinal {
    /// An empty report of ECS results.
    pub fn new() -> (r: ResFinal)
        ensures
            r.class@ == "ecs"@,
            r.res@.len() == 0,
    {
        ResFinal { class: "ecs".to_owned(), res: Vec::new() }
    }
}

/// The entries of a map, with the keys as text.
pub open spec fn entry_rows<V>(es: Seq<(String, V)>) -> Seq<(Seq<char>, V)> {
    es.map_values(|e: (String, V)| (e.0@, e.1))
}

/// A disk of a result, as a device and readings.
pub open spec fn disk_row(r: ResDisk) -> (Seq<char>, Disk) {
    (r.id@, Disk { rate: r.rate, rd: r.rd, wr: r.wr, rdtps: r.rdtps, wrtps: r.wrtps })
}

/// An interface of a result, as an address and readings.
pub open spec fn netif_row(r: ResNetIf) -> (Seq<char>, IfReadings) {
    (r.ip@, IfReadings { rd: r.rd, wr: r.wr, rdtps: r.rdtps, wrtps: r.wrtps })
}

/// Whether `r` reports instance `id` at `ts_ms` (milliseconds) with readings `i`: the
/// stamp in seconds, the readings, and each disk and interface in the maps' order.
pub open spec fn res_of(r: Res, id: Seq<char>, ts_ms: u64, i: Inner) -> bool {
    &&& r.id@ == id
    &&& r.ts == (ts_ms / 1000) as i32
    &&& r.cpu_rate == i.cpu_rate
    &&& r.mem_rate == i.mem_rate
    &&& r.load5m == i.load5m
    &&& r.load15m == i.load15m
    &&& r.tcp == i.tcp
    &&& r.disk@.map_values(|d: ResDisk| disk_row(d)) == entry_rows(i.disk.entries())
    &&& r.netif@.map_values(|n: ResNetIf| netif_row(n)) == entry_rows(i.netif.entries())
}

/// The snapshots of an instance, with its id and their stamps.
pub open spec fn snaps_of(e: (String, Ecs)) -> Seq<(Seq<char>, u64, Inner)> {
    Seq::new(
        e.1.data.slots_spec().len(),
        |j: int|
            (
                e.0@,
                stamp_of(e.1.data.base_spec(), e.1.data.period_spec(), j) as u64,
                e.1.data.slots_spec()[j],
            ),
    )
}

/// The snapshots of all instances, instance after instance.
pub open spec fn all_snaps(es: Seq<(String, Ecs)>) -> Seq<(Seq<char>, u64, Inner)>
    decreases es.len(),
{
    if es.len() == 0 {
        Seq::empty()
    } else {
        all_snaps(es.drop_last()) + snaps_of(es.last())
    }
}

fn disk_results(m: &StrMap<Disk>) -> (v: Vec<ResDisk>)
    ensures
        v@.map_values(|d: ResDisk| disk_row(d)) == entry_rows(m.entries()),
{
    let mut v: Vec<ResDisk> = Vec::new();
    let mut i: usize = 0;
    while i < m.len()
        invariant
            i <= m.entries().len(),
            v@.map_values(|d: ResDisk| disk_row(d)) == entry_rows(m.entries().take(i as int)),
        decreases m.entries().len() - i,
    {
        let (k, d) = m.entry_at(i);
        let ghost old_v = v@;
        let id = k.clone();
        assert(id@ == k@);
        let row = ResDisk { id, rate: d.rate, rd: d.rd, wr: d.wr, rdtps: d.rdtps, wrtps: d.wrtps };
        assert(disk_row(row) == (m.entries()[i as int].0@, m.entries()[i as int].1));
        v.push(row);
        assert(v@.map_values(|d: ResDisk| disk_row(d)) =~= old_v.map_values(|d: ResDisk| disk_row(d)).push(disk_row(row)));
        assert(m.entries().take(i + 1) =~= m.entries().take(i as int).push(m.entries()[i as int]));
        assert(v@.map_values(|d: ResDisk| disk_row(d)) =~= entry_rows(m.entries().take(i + 1)));
        i = i + 1;
    }
    assert(m.entries().take(m.entries().len() as int) =~= m.entries());
    v
}

fn netif_results(m: &StrMap<IfReadings>) -> (v: Vec<ResNetIf>)
    ensures
        v@.map_values(|n: ResNetIf| netif_row(n)) == entry_rows(m.entries()),
{
    let mut v: Vec<ResNetIf> = Vec::new();
    let mut i: usize = 0;
    while i < m.len()
        invariant
            i <= m.entries().len(),
            v@.map_values(|n: ResNetIf| netif_row(n)) == entry_rows(m.entries().take(i as int)),
        decreases m.entries().len() - i,
    {
        let (k, n) = m.entry_at(i);
        let ghost old_v = v@;
        let ip = k.clone();
        assert(ip@ == k@);
        let row = ResNetIf { ip, rd: n.rd, wr: n.wr, rdtps: n.rdtps, wrtps: n.wrtps };
        assert(netif_row(row) == (m.entries()[i as int].0@, m.entries()[i as int].1));
        v.push(row);
        assert(v@.map_values(|n: ResNetIf| netif_row(n)) =~= old_v.map_values(|n: ResNetIf| netif_row(n)).push(netif_row(row)));
        assert(m.entries().take(i + 1) =~= m.entries().take(i as int).push(m.entries()[i as int]));
        assert(v@.map_values(|n: ResNetIf| netif_row(n)) =~= entry_rows(m.entries().take(i + 1)));
        i = i + 1;
    }
    assert(m.entries().take(m.entries().len() as int) =~= m.entries());
    v
}

/// The report of a round: one result per instance and snapshot, instance after
/// instance, each instance's snapshots in time order.
pub fn results(holder: &StrMap<Ecs>) -> (r: ResFinal)
    ensures
        r.class@ == "ecs"@,
        r.res@.len() == all_snaps(holder.entries()).len(),
        forall|k: int|
            0 <= k < r.res@.len() ==> res_of(
                #[trigger] r.res@[k],
                all_snaps(holder.entries())[k].0,
                all_snaps(holder.entries())[k].1,
                all_snaps(holder.entries())[k].2,
            ),
{
    let ghost es = holder.entries();
    let mut out = ResFinal::new();
    let mut a: usize = 0;
    assert(es.take(0) =~= Seq::<(String, Ecs)>::empty());
    while a < holder.len()
        invariant
            es == holder.entries(),
            a <= es.len(),
            out.class@ == "ecs"@,
            out.res@.len() == all_snaps(es.take(a as int)).len(),
            forall|k: int|
                0 <= k < out.res@.len() ==> res_of(
                    #[trigger] out.res@[k],
                    all_snaps(es.take(a as int))[k].0,
                    all_snaps(es.take(a as int))[k].1,
                    all_snaps(es.take(a as int))[k].2,
                ),
        decreases es.len() - a,
    {
        let (id, e) = holder.entry_at(a);
        let ghost prev = all_snaps(es.take(a as int));
        let ghost here = snaps_of(es[a as int]);
        assert(es.take(a + 1).drop_last() =~= es.take(a as int));
        assert(es.take(a + 1).last() == es[a as int]);
        assert(all_snaps(es.take(a + 1)) == prev + here);
        let mut j: usize = 0;
        while j < e.data.len()
            invariant
                es == holder.entries(),
                a < es.len(),
                *id == es[a as int].0,
                *e == es[a as int].1,
                here == snaps_of(es[a as int]),
                out.class@ == "ecs"@,
                j <= e.data.slots_spec().len(),
                out.res@.len() == prev.len() + j,
                forall|k: int|
                    0 <= k < prev.len() ==> res_of(#[trigger] out.res@[k], prev[k].0, prev[k].1, prev[k].2),
                forall|k: int|
                    prev.len() <= k < prev.len() + j ==> res_of(
                        #[trigger] out.res@[k],
                        here[k - prev.len()].0,
                        here[k - prev.len()].1,
                        here[k - prev.len()].2,
                    ),
            decreases e.data.slots_spec().len() - j,
        {
            let ts = e.data.stamp(j);
            let inner = e.data.slot(j);
            let disk = disk_results(&inner.disk);
            let netif = netif_results(&inner.netif);
            let r = Res::new(
                id.clone(),
                (ts / 1000) as i32,
                inner.cpu_rate,
                inner.mem_rate,
                inner.load5m,
                inner.load15m,
                inner.tcp,
                disk,
                netif,
            );
            assert(here[j as int] == (id@, ts, *inner));
            out.res.push(r);
            j = j + 1;
        }
        proof {
            let now = all_snaps(es.take(a + 1));
            assert forall|k: int| 0 <= k < out.res@.len() implies res_of(
                #[trigger] out.res@[k],
                now[k].0,
                now[k].1,
                now[k].2,
            ) by {
                if k < prev.len() {
                    assert(now[k] == prev[k]);
                } else {
                    assert(now[k] == here[k - prev.len()]);
                }
            }
        }
        a = a + 1;
    }
    assert(es.take(es.len() as int) =~= es);
    out
}

} // verus!
