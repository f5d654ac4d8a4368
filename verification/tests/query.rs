use svdp::serv::sv::{
    align_interval, cache_worker, db_points_of, db_sql, method_kind, plan, query_kind, respond, worker,
    DbReply,
    Kind, Outcome, Params, Plan, Req,
};
use svdp::serv::{answer_frame, error_frame, result_frame, router};
use svdp::strmap::StrMap;
use svdp::sv::aliyun::{ecs, slb, Cache};
use svdp::Config;

fn req(method: &str, item: (&str, Option<&str>, Option<&str>), id: &str, range: [i32; 2], itv: Option<i32>, algo: Option<Vec<&str>>) -> Req {
    Req {
        method: method.to_string(),
        params: Params {
            item: (item.0.to_string(), item.1.map(|s| s.to_string()), item.2.map(|s| s.to_string())),
            instance_id: id.to_string(),
            ts_range: range,
            interval: itv,
            algo: algo.map(|v| v.into_iter().map(|s| s.to_string()).collect()),
        },
        id: 7,
    }
}

fn lb(conn: i32) -> slb::Inner {
    slb::Inner { rd: 1, wr: 2, rdtps: 3, wrtps: 4, conn }
}

/// A load balancer cache: snapshots stamped 600, 900, ..., 2400; "lb-1" in all but 1500.
fn lb_cache() -> Cache<slb::Inner> {
    let mut c = Cache::new();
    let mut ts = 600;
    while ts <= 2400 {
        let mut m = StrMap::new();
        if ts != 1500 {
            m.insert("lb-1".to_string(), lb(ts / 100));
        }
        m.insert("lb-2".to_string(), lb(-ts));
        c.push_back(ts, m, false);
        ts += 300;
    }
    c
}

fn answer(o: Outcome) -> Result<(String, i32), (String, i32)> {
    match o {
        Outcome::Answer(a) => a,
        Outcome::AskDb { .. } => panic!("asked the database"),
    }
}

#[test]
fn router_sends_sv_methods_on() {
    assert!(router(r#"{"method":"sv_ecs","params":{},"id":0}"#).is_ok());
    assert!(router(r#"{"method":"sv_memcache","id":1}"#).is_ok());
    assert_eq!(router(r#"{"method":"dp_x","id":1}"#), Err(("method invalid".to_string(), -1)));
    assert_eq!(router(r#"{"method":"sv_","id":1}"#), Err(("method invalid".to_string(), -1)));
    assert_eq!(router("not json"), Err(("method invalid".to_string(), -1)));
    assert!(svdp::serv::routes(Some("sv_x".to_string())).is_ok());
    assert_eq!(svdp::serv::routes(Some("dp_x".to_string())), Err(("method invalid".to_string(), -1)));
    assert_eq!(svdp::serv::routes(None), Err(("method invalid".to_string(), -1)));
}

#[test]
fn answer_frames() {
    assert_eq!(result_frame("[[1],[2]]", 0), r#"{"result":[[1],[2]],"id":0}"#);
    assert_eq!(error_frame("error msg", 0), r#"{"err":"error msg","id":0}"#);
    assert_eq!(answer_frame(&Err(("method invalid".to_string(), -1))), r#"{"err":"method invalid","id":-1}"#);
    assert_eq!(answer_frame(&Ok(("[[],[]]".to_string(), 12))), r#"{"result":[[],[]],"id":12}"#);
}

#[test]
fn analysis_worker_answers_empty() {
    assert_eq!(svdp::serv::sv_analyze::worker("{}"), Err(("json parse err".to_string(), -1)));
    assert_eq!(svdp::serv::sv_analyze::worker("nope"), Err(("json parse err".to_string(), -1)));
    let body = r#"{"method":"Sv_ecs","params":{"item":["cpu_ratio",null,null],"ts_range":[15000000,1600000],"standard":">80"},"id":5}"#;
    assert_eq!(svdp::serv::sv_analyze::worker(body), Ok((String::new(), 5)));
    assert_eq!(svdp::serv::sv_analyze::worker(r#"{"id":-3}"#), Ok((String::new(), -3)));
    assert_eq!(svdp::serv::sv_analyze::worker(r#"{"id":4294967296}"#), Err(("json parse err".to_string(), -1)));
}

#[test]
fn methods_name_kinds() {
    assert!(method_kind("sv_ecs") == Some(Kind::Ecs));
    assert!(method_kind("sv_mongodb") == Some(Kind::Mongodb));
    assert!(method_kind("sv_memcache") == Some(Kind::Memcache));
    assert!(method_kind("sv_redis") == Some(Kind::Redis));
    assert!(method_kind("xx_redis") == None);
    assert!(method_kind("sv") == None);
    assert!(method_kind("") == None);
    assert!(method_kind("sv_") == None);
    assert!(method_kind("sv_ecs2") == None);
}

#[test]
fn intervals_align_to_the_cache_interval() {
    assert_eq!(align_interval(Some(700)), 600);
    assert_eq!(align_interval(Some(100)), 300);
    assert_eq!(align_interval(Some(-5)), 300);
    assert_eq!(align_interval(None), 300);
    assert_eq!(align_interval(Some(900)), 900);
    assert_eq!(align_interval(Some(align_interval(Some(1234)))), 1200);
}

#[test]
fn query_plans() {
    assert!(plan(None, 0, 1000) == Plan::Db);
    assert!(plan(Some(2000), 0, 1000) == Plan::Db);
    assert!(plan(Some(600), 400, 1000) == Plan::Cache);
    assert!(plan(Some(900), 0, 1000) == Plan::Split { db_end: 600 });
}

#[test]
fn cached_points_of_one_instance() {
    let c = lb_cache();
    let r = req("sv_slb", ("conn", None, None), "lb-1", [900, 2100], None, None);
    let pts = cache_worker(&r, 300, &c).unwrap();
    assert_eq!(pts, vec![(900, 9), (1200, 12), (1800, 18), (2100, 21)]);
    let pts = cache_worker(&r, 600, &c).unwrap();
    assert_eq!(pts, vec![(1200, 12), (1800, 18)]);
    let unknown = req("sv_slb", ("cpu", None, None), "lb-1", [900, 2100], None, None);
    assert_eq!(cache_worker(&unknown, 300, &c), Ok(vec![(900, -1), (1200, -1), (1800, -1), (2100, -1)]));
    let half = req("sv_slb", ("conn", Some("x"), None), "lb-1", [900, 2100], None, None);
    assert_eq!(cache_worker(&half, 300, &c), Err("params invalid".to_string()));
}

#[test]
fn answers_from_the_cache() {
    let c = lb_cache();
    let r = req("sv_slb", ("wr", None, None), "lb-1", [600, 1200], Some(100), None);
    let a = answer(worker(&r, &c, None));
    assert_eq!(a, Ok(("[[600,900,1200],[2,2,2]]".to_string(), 7)));
    let r = req("sv_slb", ("conn", None, None), "lb-1", [700, 1700], None, Some(vec!["sum", "avg", "min", "max"]));
    let a = answer(worker(&r, &c, None));
    assert_eq!(a, Ok((r#"[["sum","avg","min","max"],[21,10,9,12]]"#.to_string(), 7)));
    let r = req("sv_slb", ("conn", None, None), "lb-1", [700, 1700], None, Some(vec!["median"]));
    assert_eq!(answer(worker(&r, &c, None)), Err(("algo invalid".to_string(), 7)));
    let r = req("sv_slb", ("nosuch", None, None), "lb-1", [600, 1200], None, None);
    assert_eq!(answer(worker(&r, &c, None)), Ok(("[[600,900,1200],[-1,-1,-1]]".to_string(), 7)));
}

#[test]
fn unknown_instance_gets_empty_arrays() {
    let c = lb_cache();
    let r = req("sv_slb", ("wr", None, None), "nobody", [600, 1200], None, None);
    assert_eq!(answer(worker(&r, &c, None)), Ok(("[[],[]]".to_string(), 7)));
    let r = req("sv_slb", ("wr", None, None), "nobody", [600, 1200], None, Some(vec!["avg", "min"]));
    assert_eq!(answer(worker(&r, &c, None)), Ok((r#"[["avg","min"],[-1,-1]]"#.to_string(), 7)));
}

#[test]
fn unknown_device_reads_minus_one() {
    let mut c: Cache<ecs::Inner> = Cache::new();
    let mut m = StrMap::new();
    m.insert("i-1".to_string(), ecs::Inner::new());
    c.push_back(600, m, false);
    let r = req("sv_ecs", ("disk", Some("/dev/vda1"), Some("rdtps")), "i-1", [600, 600], None, None);
    assert_eq!(answer(worker(&r, &c, None)), Ok(("[[600],[-1]]".to_string(), 7)));
}

#[test]
fn database_then_cache() {
    let c = lb_cache();
    let r = req("sv_slb", ("wr", None, None), "lb-1", [0, 900], None, None);
    match worker(&r, &c, None) {
        Outcome::AskDb { sql } => assert_eq!(
            sql.unwrap(),
            "SELECT array_to_json(array_agg(json_build_array(ts, sv#>'{lb-1,wr}')))::text FROM sv_slb WHERE ts >= 0 AND ts <= 300 AND sv ? 'lb-1' AND (ts % 300) = 0"
        ),
        Outcome::Answer(_) => panic!("no database part"),
    }
    let reply = DbReply::Rows(Some("[[300,5],[0,4],[150,null]]".to_string()));
    let a = answer(worker(&r, &c, Some(reply)));
    assert_eq!(a, Ok(("[[0,150,300,600,900],[4,-1,5,2,2]]".to_string(), 7)));
    assert_eq!(answer(worker(&r, &c, Some(DbReply::PoolBusy))), Err(("db_conn_pool busy".to_string(), 7)));
    assert_eq!(answer(worker(&r, &c, Some(DbReply::QueryFailed))), Err(("db query err".to_string(), 7)));
    assert_eq!(answer(worker(&r, &c, Some(DbReply::Rows(Some("{".to_string()))))), Err(("server err".to_string(), 7)));
    assert_eq!(answer(worker(&r, &c, Some(DbReply::Rows(None)))), Ok(("[[600,900],[2,2]]".to_string(), 7)));
}

#[test]
fn database_only_when_the_cache_is_newer() {
    let c = lb_cache();
    let r = req("sv_slb", ("wr", None, None), "lb-1", [0, 500], Some(600), None);
    match worker(&r, &c, None) {
        Outcome::AskDb { sql } => assert_eq!(
            sql.unwrap(),
            "SELECT array_to_json(array_agg(json_build_array(ts, sv#>'{lb-1,wr}')))::text FROM sv_slb WHERE ts >= 0 AND ts <= 500 AND sv ? 'lb-1' AND (ts % 600) = 0"
        ),
        Outcome::Answer(_) => panic!("no database part"),
    }
    let empty: Cache<slb::Inner> = Cache::new();
    let r2 = req("sv_slb", ("a", Some("b"), None), "lb-1", [0, 500], None, None);
    match worker(&r2, &empty, None) {
        Outcome::AskDb { sql } => assert!(sql.is_none()),
        Outcome::Answer(_) => panic!("no database part"),
    }
    assert_eq!(answer(worker(&r2, &empty, Some(DbReply::NoQuery))), Err(("invalid item".to_string(), 7)));
    let backwards = req("sv_slb", ("wr", None, None), "lb-1", [500, 0], None, None);
    assert_eq!(answer(worker(&backwards, &empty, None)), Ok(("[[],[]]".to_string(), 7)));
}

#[test]
fn database_points_sorted_without_nulls() {
    let pts = db_points_of(&DbReply::Rows(Some("[[3,30],[1,null],[2,20],[1,10]]".to_string()))).unwrap();
    assert_eq!(pts, vec![(1, -1), (1, 10), (2, 20), (3, 30)]);
    assert_eq!(db_points_of(&DbReply::Rows(None)).unwrap(), vec![]);
    assert_eq!(db_points_of(&DbReply::NoQuery), Err("invalid item".to_string()));
}

#[test]
fn database_queries() {
    let r = req("sv_ecs", ("disk", Some("/dev/vda1"), Some("rdtps")), "i-77777", [15000000, 16000000], Some(600), None);
    assert_eq!(
        db_sql(&r, 15999000, Some(600)).unwrap(),
        "SELECT array_to_json(array_agg(json_build_array(ts, sv#>'{i-77777,disk,/dev/vda1,rdtps}')))::text FROM sv_ecs WHERE ts >= 15000000 AND ts <= 15999000 AND sv ? 'i-77777' AND (ts % 600) = 0"
    );
    assert_eq!(
        db_sql(&r, 1, None).unwrap(),
        "SELECT array_to_json(array_agg(json_build_array(ts, sv#>'{i-77777,disk,/dev/vda1,rdtps}')))::text FROM sv_ecs WHERE ts >= 15000000 AND ts <= 1 AND sv ? 'i-77777' "
    );
}

#[test]
fn reductions_and_series() {
    let pts = vec![(1, 4), (2, -7), (3, 10)];
    assert_eq!(respond(&None, &pts, 3), Ok(("[[1,2,3],[4,-7,10]]".to_string(), 3)));
    let algo = Some(vec!["max".to_string(), "sum".to_string(), "avg".to_string(), "min".to_string()]);
    assert_eq!(respond(&algo, &pts, 3), Ok((r#"[["max","sum","avg","min"],[10,7,2,-7]]"#.to_string(), 3)));
    let neg = vec![(1, -7), (2, 0)];
    let algo = Some(vec!["avg".to_string()]);
    assert_eq!(respond(&algo, &neg, 3), Ok((r#"[["avg"],[-3]]"#.to_string(), 3)));
    assert_eq!(respond(&Some(vec![]), &pts, 3), Ok(("[[],[]]".to_string(), 3)));
}

#[test]
fn configured_services() {
    let c = Config { pg_login_url: "postgres://x".to_string(), sv_tcp_addr: Some("[::1]:30000".to_string()), sv_http_addr: None };
    assert_eq!(c.services(), (false, true));
}

#[test]
fn unknown_methods_answered_with_the_request_id() {
    assert!(query_kind(&req("sv_slb", ("conn", None, None), "lb-1", [0, 1], None, None)) == Ok(Kind::Slb));
    for m in ["sv_abc", "sv", "xx_ecs", "sv_ecs2"] {
        let r = query_kind(&req(m, ("conn", None, None), "lb-1", [0, 1], None, None));
        assert!(r == Err(("method invalid".to_string(), 7)));
        let frame = answer_frame(&Err(r.err().unwrap()));
        assert_eq!(frame, r#"{"err":"method invalid","id":7}"#);
    }
}
