use svdp::strmap::StrMap;
use svdp::sv::aliyun::ecs;
use svdp::sv::aliyun::ecs::{instances_of, page_total};
use svdp::sv::aliyun::{datapoints_of, get_region_of, page_reply_of};
use svdp::sv::aliyun::{
    argv_new_base, below_keep, cache_stamp, db_stamp, fetch_step, keep_in_cache, keep_of,
    mem_insufficient, memcache, mongodb, page_step, rds, redis, regions_argv, regions_of, slb,
    Cache, Datapoint, FetchAction, FetchEvent, PageReply, Timeline, CACHEINTERVAL, INTERVAL,
};

fn pairs(v: &[[String; 2]]) -> Vec<(String, String)> {
    v.iter().map(|p| (p[0].clone(), p[1].clone())).collect()
}

fn point(id: Option<&str>, ts: Option<u64>, avg: Option<u64>, scaled: Option<i32>) -> Datapoint {
    Datapoint {
        instance_id: id.map(|s| s.to_string()),
        timestamp: ts,
        device: None,
        ip: None,
        state: None,
        average: avg,
        scaled,
    }
}

const BASE: u64 = 1_519_800_000_000;

#[test]
fn metric_query_parameters() {
    let argv = argv_new_base(BASE);
    let p = pairs(&argv);
    assert_eq!(p.len(), 6);
    assert_eq!(p[0], ("Domain".to_string(), "metrics.aliyuncs.com".to_string()));
    assert_eq!(p[3], ("Length".to_string(), "1000".to_string()));
    assert_eq!(p[4], ("StartTime".to_string(), "1519800000000".to_string()));
    assert_eq!(p[5], ("EndTime".to_string(), "1519800300000".to_string()));

    let argv = slb::WrData.argv_new(BASE);
    let p = pairs(&argv);
    assert_eq!(p.len(), 9);
    assert_eq!(p[6], ("Project".to_string(), "acs_slb_dashboard".to_string()));
    assert_eq!(p[7], ("Period".to_string(), "60".to_string()));
    assert_eq!(p[8], ("Metric".to_string(), "TrafficTXNew".to_string()));

    let p = pairs(&ecs::CpuData.argv_new(BASE));
    assert_eq!(p[7], ("Period".to_string(), "300".to_string()));
    assert_eq!(p[8], ("Metric".to_string(), "cpu_total".to_string()));

    let p = pairs(&redis::CpuData.argv_new(BASE));
    assert_eq!(p[6], ("Project".to_string(), "acs_kvstore".to_string()));
    assert_eq!(p[8], ("Metric".to_string(), "CpuUsage".to_string()));

    let p = pairs(&memcache::RdData.argv_new(BASE));
    assert_eq!(p[8], ("Metric".to_string(), "IntranetIn".to_string()));
}

#[test]
fn round_snapshots_are_stamped_within_the_round() {
    let h = slb::holder_new(BASE);
    assert_eq!(h.len() as u64, INTERVAL / slb::MSPERIOD);
    assert_eq!(h.stamp(0), BASE + 60000);
    assert_eq!(h.stamp(4), BASE + INTERVAL);
    assert_eq!(h.slot_index(BASE + 60000), Some(0));
    assert_eq!(h.slot_index(BASE + 60000 + 59999), Some(0));
    assert_eq!(h.slot_index(BASE + 120000), Some(1));
    assert_eq!(h.slot_index(BASE), None);
    assert_eq!(h.slot_index(BASE + INTERVAL + 60000), None);
    let stamped = h.into_stamped();
    let stamps: Vec<u64> = stamped.iter().map(|x| x.0).collect();
    assert_eq!(stamps, vec![BASE + 60000, BASE + 120000, BASE + 180000, BASE + 240000, BASE + 300000]);
}

#[test]
fn load_balancer_readings_land_in_their_slot() {
    let mut h = slb::holder_new(BASE);
    let pts = vec![
        point(Some("lb-1"), Some(BASE + 60000 + 10), Some(8 * 1024 * 3), None),
        point(Some("lb-2"), Some(BASE + 180000), Some(8 * 1024 * 7 + 5), None),
        point(Some("lb-3"), Some(BASE), Some(8 * 1024), None),
        point(None, Some(BASE + 60000), Some(8 * 1024), None),
        point(Some("lb-4"), None, Some(8 * 1024), None),
        point(Some("lb-5"), Some(BASE + 60000), None, Some(3)),
    ];
    slb::WrData.insert(&mut h, &pts);
    let s0 = &h.slot(0).data;
    assert_eq!(s0.len(), 1);
    assert_eq!(s0.get("lb-1").map(|i| i.wr), Some(3));
    assert_eq!(s0.get("lb-1").map(|i| i.rd), Some(0));
    let s2 = &h.slot(2).data;
    assert_eq!(s2.get("lb-2").map(|i| slb::Inner::wr(i, "", "")), Some(7));
    for i in [1usize, 3, 4] {
        assert_eq!(h.slot(i).data.len(), 0);
    }
}

#[test]
fn ecs_readings_only_for_listed_instances() {
    let mut h = ecs::holder_new(BASE);
    assert_eq!(h.len(), 1);
    assert_eq!(h.stamp(0), BASE + INTERVAL);
    ecs::Meta.insert(&mut h, &vec![Some("i-1".to_string()), None, Some("i-2".to_string())]);
    assert_eq!(h.slot(0).data.len(), 2);

    let ts = Some(BASE + INTERVAL + 1234);
    let pts = vec![point(Some("i-1"), ts, None, Some(853)), point(Some("i-9"), ts, None, Some(1))];
    ecs::CpuData.insert(&mut h, &pts);
    let i1 = h.slot(0).data.get("i-1").unwrap();
    assert_eq!(ecs::Inner::cpu_ratio(i1, "", ""), 853);
    assert!(h.slot(0).data.get("i-9").is_none());

    let mut disk_pt = point(Some("i-2"), ts, Some(55), None);
    disk_pt.device = Some("/dev/vda1".to_string());
    ecs::disk::Data.insert(&mut h, &vec![disk_pt]);
    let mut nic_pt = point(Some("i-2"), ts, Some(8 * 1024 * 10), None);
    nic_pt.ip = Some("47.88.189.118".to_string());
    ecs::netif::rd::Data.insert(&mut h, &vec![nic_pt]);
    let mut tcp_pt = point(Some("i-2"), ts, Some(57), None);
    tcp_pt.state = Some("TCP_TOTAL".to_string());
    let mut other_tcp = point(Some("i-2"), ts, Some(3), None);
    other_tcp.state = Some("ESTABLISHED".to_string());
    ecs::TcpData.insert(&mut h, &vec![tcp_pt, other_tcp]);

    let i2 = h.slot(0).data.get("i-2").unwrap();
    assert_eq!(ecs::Inner::disk(i2, "/dev/vda1", "ratio"), 55);
    assert_eq!(ecs::Inner::disk(i2, "/dev/vda1", "rd"), 0);
    assert_eq!(ecs::Inner::disk(i2, "/dev/vdb", "ratio"), -1);
    assert_eq!(ecs::Inner::disk(i2, "/dev/vda1", "nonsense"), -1);
    assert_eq!(ecs::Inner::netif(i2, "47.88.189.118", "rd"), 10);
    assert_eq!(ecs::Inner::netif(i2, "10.0.0.1", "rd"), -1);
    assert_eq!(ecs::Inner::tcp(i2, "", ""), 57);
    assert_eq!(ecs::Inner::cpu_ratio(i2, "", ""), 0);
}

#[test]
fn instance_list_queries() {
    let argv = ecs::Meta.argv_new("cn-beijing".to_string());
    assert_eq!(argv[1], "cn-beijing");
    assert_eq!(argv.last().map(|s| s.as_str()), Some("100"));
    let paged = ecs::page_argv(&argv, 3);
    assert_eq!(paged.len(), argv.len() + 2);
    assert_eq!(paged[argv.len()], "PageNumber");
    assert_eq!(paged[argv.len() + 1], "3");
    assert_eq!(ecs::page_count(None), 0);
    assert_eq!(ecs::page_count(Some(0)), 0);
    assert_eq!(ecs::page_count(Some(1)), 1);
    assert_eq!(ecs::page_count(Some(100)), 1);
    assert_eq!(ecs::page_count(Some(101)), 2);
    assert_eq!(ecs::page_count(Some(250)), 3);
}

#[test]
fn cache_kinds_take_readings() {
    let ts = Some(BASE + INTERVAL);
    let mut h = redis::holder_new(BASE);
    redis::CpuData.insert(&mut h, &vec![point(Some("r-1"), ts, None, Some(134))]);
    let r = h.slot(0).data.get("r-1").unwrap();
    assert_eq!(redis::Inner::cpu_ratio(r, "", ""), 134);
    assert_eq!(redis::Inner::rd(r, "", ""), 0);

    let mut h = memcache::holder_new(BASE);
    memcache::RdData.insert(
        &mut h,
        &vec![point(Some("m-1"), ts, None, Some(4096)), point(Some("m-2"), ts, None, Some(-2048)), point(Some("m-3"), ts, None, Some(1023))],
    );
    let d = &h.slot(0).data;
    assert_eq!(d.get("m-1").map(|i| i.rd), Some(4));
    assert_eq!(d.get("m-2").map(|i| i.rd), Some(-2));
    assert_eq!(d.get("m-3").map(|i| i.rd), Some(0));
}

#[test]
fn item_names_select_readings() {
    assert!(ecs::Inner::get_cb("cpu_ratio").is_some());
    assert!(ecs::Inner::get_cb("disk").is_some());
    assert!(ecs::Inner::get_cb("ratio").is_none());
    assert!(slb::Inner::get_cb("conn").is_some());
    assert!(slb::Inner::get_cb("cpu_ratio").is_none());
    assert!(rds::Inner::get_cb("delay").is_some());
    assert!(rds::Inner::get_cb("rd").is_none());
    assert!(redis::Inner::get_cb("conn_ratio").is_some());
    assert!(redis::Inner::get_cb("delay").is_none());
    assert!(memcache::Inner::get_cb("wr").is_some());
    assert!(mongodb::Inner::get_cb("disktps_ratio").is_some());
    assert!(mongodb::Inner::get_cb("delay").is_none());

    let r = rds::Inner { cpu_ratio: 1, mem_ratio: 93, disk_ratio: 29, disktps_ratio: 0, conn_ratio: 2, delay: 5 };
    assert_eq!(rds::Inner::mem_ratio(&r, "", ""), 93);
    assert_eq!(rds::Inner::delay(&r, "", ""), 5);
    let m = mongodb::Inner { cpu_ratio: 45, mem_ratio: 413, disk_ratio: 327, disktps_ratio: 0, conn_ratio: 2, rd: 4817, wr: 30746 };
    assert_eq!(mongodb::Inner::wr(&m, "", ""), 30746);
    assert_eq!(mongodb::Inner::disk_ratio(&m, "", ""), 327);
    let h = rds::holder_new(BASE);
    assert_eq!(h.len(), 1);
    let h = mongodb::holder_new(BASE);
    assert_eq!(h.stamp(0), BASE + INTERVAL);
}

#[test]
fn cache_keeps_snapshots_on_the_interval() {
    assert_eq!(db_stamp(1_519_800_300_000), 1_519_800_300);
    assert_eq!(cache_stamp(600_000), Some(600));
    assert_eq!(cache_stamp(601_000), None);
    assert_eq!(CACHEINTERVAL, 300);

    let mut c: Cache<i32> = Cache::new();
    assert_eq!(c.front_ts(), None);
    keep_in_cache(&mut c, 600_000, StrMap::new(), false);
    keep_in_cache(&mut c, 700_000, StrMap::new(), false);
    keep_in_cache(&mut c, 900_000, StrMap::new(), false);
    assert_eq!(c.len(), 2);
    assert_eq!(c.front_ts(), Some(600));
    keep_in_cache(&mut c, 1_200_000, StrMap::new(), true);
    assert_eq!(c.len(), 2);
    assert_eq!(c.front_ts(), Some(900));
    assert_eq!(c.entry_at(1).0, 1200);
    c.push_front(300, StrMap::new());
    assert_eq!(c.front_ts(), Some(300));
    assert_eq!(c.len(), 3);
}

#[test]
fn pages_follow_the_cursor() {
    let q = slb::WrData.argv_new(BASE);
    let st = page_step(&q, Some(PageReply { parsed: true, cursor: Some("abc".to_string()) }));
    assert!(st.forward);
    let next = st.next.unwrap();
    assert_eq!(next.len(), q.len() + 1);
    assert_eq!(pairs(&next)[q.len()], ("Cursor".to_string(), "abc".to_string()));
    let st = page_step(&next, Some(PageReply { parsed: true, cursor: None }));
    assert!(st.forward && st.next.is_none());
    let st = page_step(&q, Some(PageReply { parsed: false, cursor: Some("x".to_string()) }));
    assert!(!st.forward && st.next.is_none());
    let st = page_step(&q, None);
    assert!(!st.forward && st.next.is_none());
}

#[test]
fn region_list() {
    let p = pairs(&regions_argv());
    assert_eq!(p[2], ("Action".to_string(), "DescribeRegions".to_string()));
    let r = regions_of(Some(vec![Some("cn-beijing".to_string()), Some("us-west-1".to_string())]));
    assert_eq!(r, Some(vec!["cn-beijing".to_string(), "us-west-1".to_string()]));
    assert_eq!(regions_of(Some(vec![Some("cn-beijing".to_string()), None])), None);
    assert_eq!(regions_of(Some(vec![])), Some(vec![]));
    assert_eq!(regions_of(None), None);
}

const MEMINFO: &str = "MemTotal:        8048836 kB\nMemFree:          350000 kB\nMemAvailable:    2000000 kB\n";

#[test]
fn memory_thresholds() {
    assert_eq!(keep_of("8048836"), Some(2414650));
    assert_eq!(keep_of("x"), None);
    assert_eq!(keep_of("18446744073709551615"), None);
    assert_eq!(below_keep("100", 101), Some(true));
    assert_eq!(below_keep("100", 100), Some(false));
    assert_eq!(svdp::mem_min_keep(MEMINFO), Some(2414650));
    assert_eq!(mem_insufficient(MEMINFO, 2414650), Some(true));
    assert_eq!(mem_insufficient(MEMINFO, 1000), Some(false));
    assert_eq!(mem_insufficient("MemFree: 1 kB\n", 10), None);
    assert_eq!(svdp::mem_min_keep("nothing"), None);
}

#[test]
fn request_tries() {
    assert!(fetch_step(0, FetchEvent::Body) == FetchAction::Deliver);
    assert!(fetch_step(0, FetchEvent::SendFailed) == FetchAction::Fail);
    assert!(fetch_step(0, FetchEvent::BadStatus) == FetchAction::Retry { pause: true });
    assert!(fetch_step(1, FetchEvent::ReadFailed) == FetchAction::Retry { pause: false });
    assert!(fetch_step(2, FetchEvent::BadStatus) == FetchAction::GiveUp { pause: true });
    assert!(fetch_step(2, FetchEvent::ReadFailed) == FetchAction::GiveUp { pause: false });
}

#[test]
fn timeline_from_slots() {
    let t: Timeline<i32> = Timeline::from_slots(1000, 10, vec![7, 8, 9]);
    assert_eq!(t.stamp(2), 1030);
    assert_eq!(*t.slot(1), 8);
    assert_eq!(t.slot_index(1035), Some(2));
    assert_eq!(t.into_slots(), vec![7, 8, 9]);
}

#[test]
fn metric_answers_read_as_datapoints() {
    let body = br#"{"Cursor":"c1","Datapoints":[
        {"instanceId":"i-1","timestamp":1519800300000,"state":"TCP_TOTAL","Average":57},
        {"instanceId":"i-2","timestamp":"soon","device":"/dev/vda1","IP":"1.2.3.4","Average":2.5},
        {"instanceId":7,"Average":-3},
        null,
        {"instanceId":"i-9"}]}"#;
    let pts = datapoints_of(body);
    assert_eq!(pts.len(), 3);
    assert_eq!(pts[0].instance_id.as_deref(), Some("i-1"));
    assert_eq!(pts[0].timestamp, Some(1519800300000));
    assert_eq!(pts[0].state.as_deref(), Some("TCP_TOTAL"));
    assert_eq!(pts[0].average, Some(57));
    assert_eq!(pts[1].timestamp, None);
    assert_eq!(pts[1].device.as_deref(), Some("/dev/vda1"));
    assert_eq!(pts[1].ip.as_deref(), Some("1.2.3.4"));
    assert_eq!(pts[1].average, None);
    assert_eq!(pts[2].instance_id, None);
    assert_eq!(pts[2].average, None);
    assert!(pts.iter().all(|p| p.scaled.is_none()));
    assert!(datapoints_of(b"garbage").is_empty());
    assert!(datapoints_of(br#"{"Datapoints":{"a":1}}"#).is_empty());
}

#[test]
fn answers_read_for_paging_and_lists() {
    let r = page_reply_of(&Some(br#"{"Cursor":"abc","Datapoints":[]}"#.to_vec())).unwrap();
    assert!(r.parsed);
    assert_eq!(r.cursor.as_deref(), Some("abc"));
    let r = page_reply_of(&Some(br#"{"Cursor":5}"#.to_vec())).unwrap();
    assert!(r.parsed && r.cursor.is_none());
    let r = page_reply_of(&Some(b"null".to_vec())).unwrap();
    assert!(!r.parsed);
    let r = page_reply_of(&Some(b"<html>".to_vec())).unwrap();
    assert!(!r.parsed && r.cursor.is_none());
    assert!(page_reply_of(&None).is_none());

    assert_eq!(get_region_of(None), None);
    assert_eq!(get_region_of(Some(b"x".to_vec())), None);
    assert_eq!(
        get_region_of(Some(br#"{"Regions":{"Region":[{"RegionId":"cn-beijing"}]}}"#.to_vec())),
        Some(vec!["cn-beijing".to_string()])
    );
    assert_eq!(get_region_of(Some(br#"{"Regions":{"Region":[{"RegionId":1}]}}"#.to_vec())), None);

    assert_eq!(page_total(br#"{"TotalCount":250}"#), Some(Some(250)));
    assert_eq!(page_total(br#"{"TotalCount":-1}"#), Some(Some(0)));
    assert_eq!(page_total(br#"{"TotalCount":1.5}"#), Some(Some(0)));
    assert_eq!(page_total(br#"{"TotalCount":"9"}"#), Some(None));
    assert_eq!(page_total(b"null"), None);
    let ids = instances_of(br#"{"Instances":{"Instance":[{"InstanceId":"i-1"},{"InstanceId":2},{"InstanceId":"i-3"}]}}"#);
    assert_eq!(ids, Some(vec![Some("i-1".to_string()), None, Some("i-3".to_string())]));
    assert_eq!(instances_of(b"{"), None);
}

#[test]
fn instance_list_pages_follow_in_order() {
    let pages = ecs::page_count(Some(250));
    assert_eq!(pages, 3);
    let mut seen = vec![1];
    let mut page = 1;
    while let Some(p) = ecs::next_page(pages, page) {
        seen.push(p);
        page = p;
    }
    assert_eq!(seen, vec![1, 2, 3]);
    assert_eq!(ecs::next_page(0, 1), None);
}
