//! The collector's schedule: where collection starts, the database tables it writes,
//! what it loads into the cache on start, and when a round is due.
use vstd::prelude::*;

use crate::textbuf::{push_decimal, push_str, spec_decimal, to_string};

use super::{CACHEINTERVAL, INTERVAL};

verus! {

/// The table name suffixes, one per kind: `sv_ecs`, `sv_slb`, ...
pub open spec fn tables() -> Seq<Seq<char>> {
    seq!["ecs"@, "slb"@, "rds"@, "mongodb"@, "redis"@, "memcache"@]
}

/// The table name suffixes, one per kind.
pub fn table_suffixes() -> (v: Vec<&'static str>)
    ensures
        v@.map_values(|s: &str| s@) == tables(),
{
    let v = vec!["ecs", "slb", "rds", "mongodb", "redis", "memcache"];
    assert(v@.map_values(|s: &str| s@) =~= tables());
    v
}

/// The first round's start: after the last round recorded (`last`: `None` when no row
/// is recorded, `Some(None)` when its stamp is NULL), else two intervals before the
/// interval that holds `now_ms`; `None` when the recorded stamp is NULL.
pub open spec fn initial_basestamp_spec(now_ms: u64, last: Option<Option<i32>>) -> Option<int> {
    match last {
        None => Some(now_ms / INTERVAL * INTERVAL - 2 * INTERVAL),
        Some(Some(t)) => Some(1000 * t),
        Some(None) => None,
    }
}

/// The first round's start, in milliseconds.
pub fn initial_basestamp(now_ms: u64, last: Option<Option<i32>>) -> (b: Option<u64>)
    requires
        last is None ==> now_ms >= 2 * INTERVAL,
        last matches Some(Some(t)) ==> t >= 0,
    ensures
        match initial_basestamp_spec(now_ms, last) {
            Some(x) => b == Some(x as u64) && x == b->0,
            None => b is None,
        },
{
    match last {
        None => {
            assert(now_ms / INTERVAL * INTERVAL >= 2 * INTERVAL) by (nonlinear_arith)
                requires
                    now_ms >= 2 * INTERVAL,
                    INTERVAL == 300000,
            ;
            assert(now_ms / INTERVAL * INTERVAL <= now_ms) by (nonlinear_arith)
                requires
                    INTERVAL == 300000,
            ;
            Some(now_ms / INTERVAL * INTERVAL - 2 * INTERVAL)
        },
        Some(Some(t)) => Some(1000 * (t as u64)),
        Some(None) => None,
    }
}

/// The statement that creates the partitioned table of kind `tb`.
pub open spec fn create_table_sql_text(tb: Seq<char>) -> Seq<char> {
    "CREATE TABLE IF NOT EXISTS sv_"@ + tb + " (ts int, sv jsonb) PARTITION BY RANGE (ts)"@
}

/// The statement that creates the partitioned table of kind `tb`.
pub fn create_table_sql(tb: &str) -> (s: String)
    ensures
        s@ == create_table_sql_text(tb@),
{
    let mut v: Vec<char> = Vec::new();
    push_str(&mut v, "CREATE TABLE IF NOT EXISTS sv_");
    push_str(&mut v, tb);
    push_str(&mut v, " (ts int, sv jsonb) PARTITION BY RANGE (ts)");
    to_string(&v)
}

/// The statement that writes a snapshot (its stamp and its readings) to the table of
/// kind `tb`.
pub open spec fn row_insert_sql_text(tb: Seq<char>) -> Seq<char> {
    "INSERT INTO sv_"@ + tb + " VALUES ($1, $2)"@
}

/// The statement that writes a snapshot to the table of kind `tb`.
pub fn row_insert_sql(tb: &str) -> (s: String)
    ensures
        s@ == row_insert_sql_text(tb@),
{
    let mut v: Vec<char> = Vec::new();
    push_str(&mut v, "INSERT INTO sv_");
    push_str(&mut v, tb);
    push_str(&mut v, " VALUES ($1, $2)");
    to_string(&v)
}

/// How many days of snapshots are loaded into the cache on start, at most.
pub const PRELOAD_DAYS: u64 = 30;

/// Seconds in a day.
pub const DAY_SECS: u64 = 86400;

/// The query for the cached snapshots of kind `tb` of day `day` before `basestamp`
/// (milliseconds), newest first.
pub open spec fn preload_sql_text(tb: Seq<char>, basestamp: u64, day: u64) -> Seq<char> {
    "SELECT ts, sv::text FROM sv_"@ + tb + " WHERE ts > "@ + spec_decimal(
        basestamp / 1000 - (day + 1) * DAY_SECS,
    ) + " AND ts <= "@ + spec_decimal(basestamp / 1000 - day * DAY_SECS) + " AND ts % "@
        + spec_decimal(CACHEINTERVAL as int) + " = 0 ORDER BY ts DESC"@
}

/// The query for the cached snapshots of kind `tb` of day `day` before `basestamp`.
pub fn preload_sql(tb: &str, basestamp: u64, day: u64) -> (s: String)
    requires
        day < PRELOAD_DAYS,
        basestamp / 1000 >= (day + 1) * DAY_SECS,
    ensures
        s@ == preload_sql_text(tb@, basestamp, day),
{
    let secs = basestamp / 1000;
    let mut v: Vec<char> = Vec::new();
    push_str(&mut v, "SELECT ts, sv::text FROM sv_");
    push_str(&mut v, tb);
    push_str(&mut v, " WHERE ts > ");
    push_decimal(&mut v, (secs - (day + 1) * DAY_SECS) as i128);
    push_str(&mut v, " AND ts <= ");
    push_decimal(&mut v, (secs - day * DAY_SECS) as i128);
    push_str(&mut v, " AND ts % ");
    push_decimal(&mut v, CACHEINTERVAL as i128);
    push_str(&mut v, " = 0 ORDER BY ts DESC");
    to_string(&v)
}

/// A step of loading the cache on start.
#[derive(Clone, Copy, PartialEq, Eq, Structural)]
pub enum Preload {
    /// Check whether memory is short before loading day `day`.
    CheckMemory { day: u64 },
    /// Load the snapshots of kind `table` (an index into the table suffixes) of day `day`.
    Load { day: u64, table: usize },
    /// Loading is over.
    Done,
}

/// The step after day `day`'s memory check: stop when memory is short.
pub open spec fn preload_after_check_spec(day: u64, low: bool) -> Preload {
    if low {
        Preload::Done
    } else {
        Preload::Load { day, table: 0 }
    }
}

/// The step after loading kind `table` of day `day`: the next kind of the day, unless
/// nothing was found or it was the last kind; then the next day's memory check, unless
/// it was the last day.
pub open spec fn preload_after_load_spec(day: u64, table: usize, empty: bool) -> Preload {
    if empty || table + 1 >= tables().len() {
        if day + 1 < PRELOAD_DAYS {
            Preload::CheckMemory { day: (day + 1) as u64 }
        } else {
            Preload::Done
        }
    } else {
        Preload::Load { day, table: (table + 1) as usize }
    }
}

/// The first step of loading the cache.
pub fn preload_first() -> (p: Preload)
    ensures
        p == (Preload::CheckMemory { day: 0 }),
{
    Preload::CheckMemory { day: 0 }
}

/// The step after day `day`'s memory check.
pub fn preload_after_check(day: u64, low: bool) -> (p: Preload)
    requires
        day < PRELOAD_DAYS,
    ensures
        p == preload_after_check_spec(day, low),
{
    if low {
        Preload::Done
    } else {
        Preload::Load { day, table: 0 }
    }
}

/// The step after loading kind `table` of day `day` (`empty`: nothing was found).
pub fn preload_after_load(day: u64, table: usize, empty: bool) -> (p: Preload)
    requires
        day < PRELOAD_DAYS,
        table < tables().len(),
    ensures
        p == preload_after_load_spec(day, table, empty),
{
    if empty || table + 1 >= 6 {
        if day + 1 < PRELOAD_DAYS {
            Preload::CheckMemory { day: day + 1 }
        } else {
            Preload::Done
        }
    } else {
        Preload::Load { day, table: table + 1 }
    }
}

/// Whether a step names a day and a kind that exist.
pub open spec fn preload_valid(p: Preload) -> bool {
    match p {
        Preload::CheckMemory { day } => day < PRELOAD_DAYS,
        Preload::Load { day, table } => day < PRELOAD_DAYS && table < tables().len(),
        Preload::Done => true,
    }
}

/// Loading the cache stays within its days and kinds, and each step moves it on: the
/// next step is done, or is a later day, or a later kind of the same day.
pub proof fn lemma_preload_moves_on(day: u64, table: usize, low: bool, empty: bool)
    requires
        day < PRELOAD_DAYS,
        table < tables().len(),
    ensures
        preload_valid(preload_after_check_spec(day, low)),
        preload_valid(preload_after_load_spec(day, table, empty)),
        match preload_after_load_spec(day, table, empty) {
            Preload::CheckMemory { day: d } => d == day + 1,
            Preload::Load { day: d, table: t } => d == day && t == table + 1,
            Preload::Done => day + 1 == PRELOAD_DAYS,
        },
{
}

/// The partition marks (hours after the epoch) to create tables for: from the hour of
/// `basestamp` up to, not including, five hours after the hour of `now_ms`.
pub fn partition_marks(basestamp: u64, now_ms: u64) -> (r: (u64, u64))
    ensures
        r.0 == basestamp / 1000 / 3600,
        r.1 == 5 + now_ms / 1000 / 3600,
{
    (basestamp / 1000 / 3600, 5 + now_ms / 1000 / 3600)
}

/// The statement that creates the partition of kind `tb` for the hour before `mark`.
pub open spec fn partition_sql_text(tb: Seq<char>, mark: u64) -> Seq<char> {
    "CREATE TABLE IF NOT EXISTS sv_"@ + tb + "_"@ + spec_decimal(mark - 1) + " PARTITION OF sv_"@
        + tb + " FOR VALUES FROM ("@ + spec_decimal(((3600 * (mark - 1)) as u64) as i32 as int)
        + ") TO ("@ + spec_decimal(((3600 * mark) as u64) as i32 as int) + ")"@
}

/// The statement that creates the partition of kind `tb` for the hour before `mark`.
pub fn partition_sql(tb: &str, mark: u64) -> (s: String)
    requires
        1 <= mark,
        3600 * mark <= u64::MAX,
    ensures
        s@ == partition_sql_text(tb@, mark),
{
    let mut v: Vec<char> = Vec::new();
    push_str(&mut v, "CREATE TABLE IF NOT EXISTS sv_");
    push_str(&mut v, tb);
    push_str(&mut v, "_");
    push_decimal(&mut v, (mark - 1) as i128);
    push_str(&mut v, " PARTITION OF sv_");
    push_str(&mut v, tb);
    push_str(&mut v, " FOR VALUES FROM (");
    push_decimal(&mut v, ((3600 * (mark - 1)) as i32) as i128);
    push_str(&mut v, ") TO (");
    push_decimal(&mut v, ((3600 * mark) as i32) as i128);
    push_str(&mut v, ")");
    to_string(&v)
}

/// How many hours of partitions are kept: 90 days.
pub const KEEP_HOURS: u64 = 2160;

/// The statement that drops the partition of kind `tb` made 90 days before the one for
/// the hour before `mark`.
pub open spec fn drop_partition_sql_text(tb: Seq<char>, mark: u64) -> Seq<char> {
    "DROP TABLE IF EXISTS sv_"@ + tb + "_"@ + spec_decimal(mark - 1 - KEEP_HOURS)
}

/// The statement that drops the partition of kind `tb` made 90 days before the one for
/// the hour before `mark`.
pub fn drop_partition_sql(tb: &str, mark: u64) -> (s: String)
    requires
        mark >= 1 + KEEP_HOURS,
    ensures
        s@ == drop_partition_sql_text(tb@, mark),
{
    let mut v: Vec<char> = Vec::new();
    push_str(&mut v, "DROP TABLE IF EXISTS sv_");
    push_str(&mut v, tb);
    push_str(&mut v, "_");
    push_decimal(&mut v, (mark - 1 - KEEP_HOURS) as i128);
    to_string(&v)
}

/// Whether the round starting at `b` is due at time `now`: the provider's readings come
/// late, so a round waits until two intervals after its start.
pub open spec fn round_due_spec(now: int, b: int) -> bool {
    now >= b + 2 * INTERVAL
}

/// The start of the round after the one starting at `b`.
pub open spec fn next_start(b: int) -> int {
    b + INTERVAL
}

/// The start of the `k`-th round after the one starting at `b`, each round starting where
/// the one before it hands on.
pub open spec fn round_start(b: int, k: nat) -> int
    decreases k,
{
    if k == 0 {
        b
    } else {
        next_start(round_start(b, (k - 1) as nat))
    }
}

/// Whether the round starting at `basestamp` is due at `now_ms`.
pub fn round_due(now_ms: u64, basestamp: u64) -> (r: bool)
    requires
        basestamp + 2 * INTERVAL <= u64::MAX,
    ensures
        r == round_due_spec(now_ms as int, basestamp as int),
{
    now_ms >= basestamp + 2 * INTERVAL
}

/// The start of the round after the one starting at `basestamp`.
pub fn next_basestamp(basestamp: u64) -> (b: u64)
    requires
        basestamp + INTERVAL <= u64::MAX,
    ensures
        b == next_start(basestamp as int),
{
    basestamp + INTERVAL
}

/// The `k`-th round after a first start `b` starts `k` intervals after it.
proof fn lemma_round_start_form(b: int, k: nat)
    ensures
        round_start(b, k) == b + k * INTERVAL,
    decreases k,
{
    if k > 0 {
        lemma_round_start_form(b, (k - 1) as nat);
    }
}

/// Rounds run in order, one interval apart, none skipped: from a first start `b`, round
/// `k` starts `k` intervals after `b`, where round `k - 1` hands on, later than every
/// round `j` before it; and it is due exactly once the clock reaches two intervals past
/// its own start.
pub proof fn lemma_rounds_in_order(b: int, j: nat, k: nat, now: int)
    requires
        j < k,
    ensures
        round_start(b, j) == b + j * INTERVAL,
        round_start(b, k) == b + k * INTERVAL,
        round_start(b, k) == next_start(round_start(b, (k - 1) as nat)),
        round_start(b, j) < round_start(b, k),
        round_due_spec(now, round_start(b, k)) <==> now >= b + (k + 2) * INTERVAL,
{
    lemma_round_start_form(b, j);
    lemma_round_start_form(b, k);
}

/// The statement that records `basestamp` (in seconds) as where collection goes on.
pub open spec fn meta_insert_sql_text(basestamp: u64) -> Seq<char> {
    "INSERT INTO sv_meta VALUES ("@ + spec_decimal((basestamp / 1000) as int) + ")"@
}

/// The statement that records `basestamp` as where collection goes on.
pub fn meta_insert_sql(basestamp: u64) -> (s: String)
    ensures
        s@ == meta_insert_sql_text(basestamp),
{
    let mut v: Vec<char> = Vec::new();
    push_str(&mut v, "INSERT INTO sv_meta VALUES (");
    push_decimal(&mut v, (basestamp / 1000) as i128);
    push_str(&mut v, ")");
    to_string(&v)
}

/// What is recorded after a round is where collection resumes: from a first start that
/// `initial_basestamp` gives, the row that `meta_insert_sql` writes after round `k` holds
/// the start of round `k + 1` in seconds, and read back on a restart, at any time, it
/// gives that start again.
pub proof fn lemma_restart_resumes(now0: u64, last: Option<Option<i32>>, k: nat, now1: u64)
    requires
        last is None ==> now0 >= 2 * INTERVAL,
        last matches Some(Some(t)) ==> t >= 0,
        initial_basestamp_spec(now0, last) is Some,
        round_start(initial_basestamp_spec(now0, last)->0, k + 1) / 1000 <= i32::MAX,
    ensures
        ({
            let n = round_start(initial_basestamp_spec(now0, last)->0, k + 1);
            let t = n / 1000;
            &&& 0 <= n <= u64::MAX
            &&& meta_insert_sql_text(n as u64) == "INSERT INTO sv_meta VALUES ("@ + spec_decimal(
                t,
            ) + ")"@
            &&& initial_basestamp_spec(now1, Some(Some(t as i32))) == Some(n)
        }),
{
    let b0 = initial_basestamp_spec(now0, last)->0;
    let q: int = match last {
        None => {
            let m: int = now0 as int / 300000;
            assert(m >= 2) by (nonlinear_arith)
                requires
                    now0 >= 600000,
                    m == now0 as int / 300000,
            ;
            assert(b0 == m * 300000 - 600000);
            assert(b0 == 1000 * (300 * m - 600)) by (nonlinear_arith)
                requires
                    b0 == m * 300000 - 600000,
            ;
            300 * m - 600
        },
        Some(Some(t)) => t as int,
        Some(None) => 0,
    };
    assert(b0 == 1000 * q && q >= 0);
    lemma_round_start_form(b0, k + 1);
    let n = round_start(b0, k + 1);
    let x: int = q + 300 * (k + 1);
    assert(n == 1000 * x);
    assert(n / 1000 == x) by (nonlinear_arith)
        requires
            n == 1000 * x,
    ;
    assert(x <= i32::MAX);
    assert(0 <= n <= u64::MAX);
    assert((n as u64) / 1000 == x);
}

} // verus!
