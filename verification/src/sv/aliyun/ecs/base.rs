//! Query parameters and reading intake shared by the ECS metrics.
use vstd::prelude::*;

use crate::sv::aliyun::mod_include::pair;
use crate::sv::aliyun::{argv_new_base, base_params, ingest_step, pairs_view, Datapoint, Timeline, INTERVAL};
use crate::textbuf::{decimal, spec_decimal};

use super::{Ecs, EcsRule, ACSITEM, MSPERIOD};

verus! {

/// The parameters of every ECS metric query.
pub open spec fn params(basestamp: u64) -> Seq<(Seq<char>, Seq<char>)> {
    base_params(basestamp).push(("Project"@, ACSITEM@)).push(
        ("Period"@, spec_decimal((MSPERIOD / 1000) as int)),
    )
}

/// The parameters of the query for ECS metric `me`.
pub open spec fn metric_params(basestamp: u64, me: Seq<char>) -> Seq<(Seq<char>, Seq<char>)> {
    params(basestamp).push(("Metric"@, me))
}

/// The snapshots after taking `points`, in order, by `rule`.
pub open spec fn ingested(
    base: u64,
    period: u64,
    rule: EcsRule,
    views: Seq<<Ecs as View>::V>,
    points: Seq<Datapoint>,
) -> Seq<<Ecs as View>::V> {
    points.fold_left(
        views,
        |acc: Seq<<Ecs as View>::V>, p: Datapoint| ingest_step::<Ecs>(base, period, rule, acc, p),
    )
}

/// The parameters of every ECS metric query.
pub fn argv_new(basestamp: u64) -> (argv: Vec<[String; 2]>)
    requires
        basestamp + INTERVAL <= u64::MAX,
    ensures
        pairs_view(argv@) == params(basestamp),
{
    let mut argv = argv_new_base(basestamp);
    argv.push(pair("Project", ACSITEM.to_owned()));
    argv.push(pair("Period", decimal((MSPERIOD / 1000) as i128)));
    assert(pairs_view(argv@) =~= params(basestamp));
    argv
}

/// The parameters of the query for ECS metric `me`.
pub fn metric_argv(basestamp: u64, me: &str) -> (argv: Vec<[String; 2]>)
    requires
        basestamp + INTERVAL <= u64::MAX,
    ensures
        pairs_view(argv@) == metric_params(basestamp, me@),
{
    let mut argv = argv_new(basestamp);
    argv.push(pair("Metric", me.to_owned()));
    assert(pairs_view(argv@) =~= metric_params(basestamp, me@));
    argv
}

/// Takes `points`, in order, into the snapshots by `rule`.
pub fn insert(holder: &mut Timeline<Ecs>, points: &Vec<Datapoint>, rule: EcsRule)
    ensures
        final(holder).base_spec() == old(holder).base_spec(),
        final(holder).period_spec() == old(holder).period_spec(),
        final(holder).views() == ingested(
            old(holder).base_spec(),
            old(holder).period_spec(),
            rule,
            old(holder).views(),
            points@,
        ),
{
    holder.ingest(&rule, points);
}

} // verus!
