use svdp::sv::aliyun::schedule::{
    create_table_sql, drop_partition_sql, initial_basestamp, meta_insert_sql, next_basestamp,
    partition_marks, partition_sql, preload_after_check, preload_after_load, preload_first,
    preload_sql, round_due, row_insert_sql, table_suffixes, Preload, PRELOAD_DAYS,
};
use svdp::sv::aliyun::INTERVAL;

#[test]
fn kinds_and_tables() {
    assert_eq!(table_suffixes(), vec!["ecs", "slb", "rds", "mongodb", "redis", "memcache"]);
    assert_eq!(create_table_sql("ecs"), "CREATE TABLE IF NOT EXISTS sv_ecs (ts int, sv jsonb) PARTITION BY RANGE (ts)");
    assert_eq!(row_insert_sql("redis"), "INSERT INTO sv_redis VALUES ($1, $2)");
}

#[test]
fn first_round_start() {
    let now = 1_519_800_123_456u64;
    assert_eq!(initial_basestamp(now, None), Some(1_519_800_000_000 - 2 * INTERVAL));
    assert_eq!(initial_basestamp(now, Some(Some(1_519_000_000))), Some(1_519_000_000_000));
    assert_eq!(initial_basestamp(now, Some(None)), None);
}

#[test]
fn rounds_wait_two_intervals() {
    let b = 1_519_800_000_000u64;
    assert!(!round_due(b + 2 * INTERVAL - 1, b));
    assert!(round_due(b + 2 * INTERVAL, b));
    assert_eq!(next_basestamp(b), b + INTERVAL);
    assert_eq!(meta_insert_sql(b), "INSERT INTO sv_meta VALUES (1519800000)");
}

#[test]
fn cache_preload_queries() {
    let b = 1_519_800_000_000u64;
    assert_eq!(
        preload_sql("slb", b, 0),
        "SELECT ts, sv::text FROM sv_slb WHERE ts > 1519713600 AND ts <= 1519800000 AND ts % 300 = 0 ORDER BY ts DESC"
    );
    assert_eq!(
        preload_sql("ecs", b, 2),
        "SELECT ts, sv::text FROM sv_ecs WHERE ts > 1519540800 AND ts <= 1519627200 AND ts % 300 = 0 ORDER BY ts DESC"
    );
}

#[test]
fn cache_preload_steps() {
    assert!(preload_first() == Preload::CheckMemory { day: 0 });
    assert!(preload_after_check(0, true) == Preload::Done);
    assert!(preload_after_check(4, false) == Preload::Load { day: 4, table: 0 });
    assert!(preload_after_load(4, 0, false) == Preload::Load { day: 4, table: 1 });
    assert!(preload_after_load(4, 2, true) == Preload::CheckMemory { day: 5 });
    assert!(preload_after_load(4, 5, false) == Preload::CheckMemory { day: 5 });
    assert!(preload_after_load(PRELOAD_DAYS - 1, 5, false) == Preload::Done);
    assert!(preload_after_load(PRELOAD_DAYS - 1, 1, true) == Preload::Done);
}

#[test]
fn hourly_partitions() {
    let (first, end) = partition_marks(1_519_800_000_000, 1_519_803_600_000);
    assert_eq!(first, 422_166);
    assert_eq!(end, 5 + 422_167);
    assert_eq!(
        partition_sql("ecs", 422_166),
        "CREATE TABLE IF NOT EXISTS sv_ecs_422165 PARTITION OF sv_ecs FOR VALUES FROM (1519794000) TO (1519797600)"
    );
    assert_eq!(drop_partition_sql("ecs", 422_166), "DROP TABLE IF EXISTS sv_ecs_420005");
}

#[test]
fn recorded_stamp_resumes_the_next_round() {
    let now = 1_519_800_450_000u64;
    let mut b = initial_basestamp(now, None).unwrap();
    assert_eq!(b, 1_519_799_700_000);
    for _ in 0..3 {
        assert!(round_due(b + 2 * INTERVAL, b));
        b = next_basestamp(b);
    }
    assert_eq!(b, 1_519_799_700_000 + 3 * INTERVAL);
    assert_eq!(meta_insert_sql(b), "INSERT INTO sv_meta VALUES (1519800600)");
    assert_eq!(initial_basestamp(0, Some(Some(1_519_800_600))), Some(b));
}
