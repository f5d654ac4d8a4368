use svdp::inventory::{meta_argv, meta_parse, parse_i32, region_parse, regions_argv};
use svdp::ecs::disk::{disks_of, DiskRecord, Meta as DiskMeta};
use svdp::ecs::{argv_new_base, load5m, netif, results, Ecs, Inner, Meta, ResFinal, PERIOD};
use svdp::strmap::StrMap;
use svdp::sv::aliyun::ecs::disk::Disk;
use svdp::sv::aliyun::ecs::netif::NetIf;
use svdp::sv::aliyun::INTERVAL;

const BASE: u64 = 1_519_800_000_000;

fn ids(v: &[Option<&str>]) -> Vec<Option<String>> {
    v.iter().map(|o| o.map(|s| s.to_string())).collect()
}

#[test]
fn instances_start_with_empty_snapshots() {
    let e = Ecs::new(BASE);
    assert_eq!(e.data.len() as u64, INTERVAL / PERIOD);
    assert_eq!(e.data.stamp(0), BASE + 15000);
    assert_eq!(e.data.stamp(19), BASE + INTERVAL);
    assert_eq!(e.data.slot(3).tcp, 0);
    assert_eq!(e.disk.len(), 0);
    let i = Inner::new();
    assert_eq!((i.cpu_rate, i.mem_rate, i.load5m, i.load15m), (0, 0, 0, 0));
}

#[test]
fn instance_list_starts_instances() {
    let mut h: StrMap<Ecs> = StrMap::new();
    Meta.insert(&mut h, &ids(&[Some("i-1"), None, Some("i-2")]), BASE);
    assert_eq!(h.len(), 2);
    assert!(h.get("i-1").is_some() && h.get("i-2").is_some());
    let argv = Meta.argv_new("cn-hangzhou".to_string());
    assert_eq!(argv[5], "DescribeInstances");
    assert_eq!(argv[1], "cn-hangzhou");
}

#[test]
fn metric_arguments() {
    let base = argv_new_base("cn-beijing".to_string());
    assert_eq!(base.len(), 17);
    assert_eq!(base[13], "15");
    assert_eq!(base[16], "Metric");
    let a = load5m::Data.argv_new("cn-beijing".to_string(), BASE);
    assert_eq!(&a[17..], &["load_5m", "StartTime", "1519800000000", "EndTime", "1519800299999"]);
    let d = svdp::ecs::disk::rd_tps::Data.argv_new("cn-beijing".to_string(), "[{}]".to_string());
    assert_eq!(&d[16..], &["Metric", "Metric", "disk_readiops", "Dimensions", "[{}]"]);
    assert!(netif::Meta.argv_new("cn-beijing").is_empty());
}

#[test]
fn disk_ids_of_known_instances() {
    let mut h: StrMap<Ecs> = StrMap::new();
    Meta.insert(&mut h, &ids(&[Some("i-1")]), BASE);
    let rec = |i: Option<&str>, d: Option<&str>, dev: Option<&str>| DiskRecord {
        instance_id: i.map(|s| s.to_string()),
        disk_id: d.map(|s| s.to_string()),
        device: dev.map(|s| s.to_string()),
    };
    DiskMeta.insert(
        &mut h,
        &vec![
            rec(Some("i-1"), Some("d-1"), Some("/dev/vda")),
            rec(Some("i-9"), Some("d-9"), Some("/dev/vda")),
            rec(Some("i-1"), None, Some("/dev/vdb")),
            rec(Some("i-1"), Some("d-2"), Some("/dev/vdb")),
        ],
    );
    let e = h.get("i-1").unwrap();
    assert_eq!(e.disk.len(), 2);
    assert_eq!(e.disk.get("/dev/vda").map(|s| s.as_str()), Some("d-1"));
    assert_eq!(e.disk.get("/dev/vdb").map(|s| s.as_str()), Some("d-2"));
    assert!(h.get("i-9").is_none());
    assert_eq!(DiskMeta.argv_new("r".to_string())[5], "DescribeDisks");
}

#[test]
fn round_results_one_per_snapshot() {
    assert_eq!(ResFinal::new().class, "ecs");
    let mut h: StrMap<Ecs> = StrMap::new();
    Meta.insert(&mut h, &ids(&[Some("i-1"), Some("i-2")]), BASE);
    let r = results(&h);
    assert_eq!(r.class, "ecs");
    assert_eq!(r.res.len() as u64, 2 * INTERVAL / PERIOD);
    assert_eq!(r.res[0].id, "i-1");
    assert_eq!(r.res[0].ts, ((BASE + 15000) / 1000) as i32);
    assert_eq!(r.res[19].ts, ((BASE + INTERVAL) / 1000) as i32);
    assert_eq!(r.res[20].id, "i-2");
    assert!(r.res[20].disk.is_empty() && r.res[20].netif.is_empty());

    let mut e = Ecs::new(BASE);
    let mut slots = Vec::new();
    let mut inner = Inner::new();
    inner.cpu_rate = 55;
    inner.disk.insert("/dev/vda1".to_string(), Disk { rate: 1, rd: 2, wr: 3, rdtps: 4, wrtps: 5 });
    inner.netif.insert("10.0.0.1".to_string(), NetIf { rd: 6, wr: 7, rdtps: 8, wrtps: 9 });
    slots.push(inner);
    e.data = svdp::sv::aliyun::Timeline::from_slots(BASE, PERIOD, slots);
    let mut h: StrMap<Ecs> = StrMap::new();
    h.insert("i-3".to_string(), e);
    let r = results(&h);
    assert_eq!(r.res.len(), 1);
    assert_eq!(r.res[0].cpu_rate, 55);
    assert_eq!(r.res[0].disk[0].id, "/dev/vda1");
    assert_eq!(r.res[0].disk[0].wrtps, 5);
    assert_eq!(r.res[0].netif[0].ip, "10.0.0.1");
    assert_eq!(r.res[0].netif[0].rdtps, 8);
}

#[test]
fn inventory_command() {
    assert_eq!(regions_argv()[3], "DescribeRegions");
    assert_eq!(meta_argv("cn-beijing")[7], "cn-beijing");
    assert_eq!(region_parse(Err("boom".to_string())), Err("boom".to_string()));
    assert_eq!(region_parse(Ok(b"not json".to_vec())), Err("E0!".to_string()));
    assert_eq!(region_parse(Ok(b"null".to_vec())), Err("E0!".to_string()));
    let bad = br#"{"Regions":{"Region":[{"RegionId":"a"},{"RegionId":3}]}}"#.to_vec();
    assert_eq!(region_parse(Ok(bad)), Err("json parse err".to_string()));
    let good = br#"{"Regions":{"Region":[{"RegionId":"a"},{"RegionId":"b"},null,{"RegionId":"c"}]}}"#.to_vec();
    assert_eq!(region_parse(Ok(good)), Ok(vec!["a".to_string(), "b".to_string()]));
    assert_eq!(meta_parse(&Ok(b"[".to_vec())), Err("E1!".to_string()));
    assert_eq!(meta_parse(&Ok(br#"{"TotalCount":42}"#.to_vec())), Err("E2!".to_string()));
    assert_eq!(meta_parse(&Ok(br#"{"TotalCount":"42"}"#.to_vec())), Ok(42));
    assert_eq!(meta_parse(&Ok(br#"{"TotalCount":"x"}"#.to_vec())), Ok(0));
    assert_eq!(meta_parse(&Err("e".to_string())), Err("e".to_string()));
    for t in ["0", "-0", "+7", "-2147483648", "2147483647", "2147483648", "-2147483649", "-+1", "+-1", "-", "", "12 "] {
        assert_eq!(parse_i32(t), t.parse::<i32>().ok(), "{}", t);
    }
}

#[test]
fn disk_list_pages_read_as_records() {
    let page = br#"{"Disks":{"Disk":[
        {"InstanceId":"i-1","DiskId":"d-1","Device":"/dev/vda"},
        {"InstanceId":"i-1","DiskId":5,"Device":"/dev/vdb"},
        {"DiskId":"d-3"},
        null,
        {"InstanceId":"i-2","DiskId":"d-4","Device":"/dev/vda"}]}}"#;
    let recs = disks_of(page).unwrap();
    assert_eq!(recs.len(), 3);
    assert_eq!(recs[0].instance_id.as_deref(), Some("i-1"));
    assert_eq!(recs[0].disk_id.as_deref(), Some("d-1"));
    assert_eq!(recs[0].device.as_deref(), Some("/dev/vda"));
    assert_eq!(recs[1].disk_id, None);
    assert_eq!(recs[1].device.as_deref(), Some("/dev/vdb"));
    assert_eq!(recs[2].instance_id, None);
    assert!(disks_of(b"null").is_none());
    assert!(disks_of(b"{oops").is_none());
    assert_eq!(disks_of(br#"{"Disks":3}"#).map(|v| v.len()), Some(0));

    let mut h: StrMap<Ecs> = StrMap::new();
    Meta.insert(&mut h, &ids(&[Some("i-1")]), BASE);
    DiskMeta.insert(&mut h, &recs);
    let e = h.get("i-1").unwrap();
    assert_eq!(e.disk.len(), 1);
    assert_eq!(e.disk.get("/dev/vda").map(|s| s.as_str()), Some("d-1"));
}
