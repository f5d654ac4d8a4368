//! Request parameters for the Aliyun API.
use vstd::prelude::*;

use crate::json::{
    element, elements, elements_of, get, json_of, member, opt_text, parse_json, text, text_of, Json,
};
use crate::serv::{capture, regex_capture};
use crate::textbuf::{chars_of, decimal, parse_u64, spec_decimal, spec_parse_u64};

use super::INTERVAL;

verus! {

/// A request parameter as a name and a value.
pub open spec fn pair_view(p: [String; 2]) -> (Seq<char>, Seq<char>) {
    (p[0]@, p[1]@)
}

/// Request parameters as names and values.
pub open spec fn pairs_view(v: Seq<[String; 2]>) -> Seq<(Seq<char>, Seq<char>)> {
    v.map_values(|p: [String; 2]| pair_view(p))
}

/// The parameter `name` = `value`.
pub fn pair(name: &str, value: String) -> (p: [String; 2])
    ensures
        pair_view(p) == (name@, value@),
{
    [name.to_owned(), value]
}

/// The parameters every metric query starts with: the round runs from `basestamp`
/// (milliseconds) for one interval.
pub open spec fn base_params(basestamp: u64) -> Seq<(Seq<char>, Seq<char>)> {
    seq![
        ("Domain"@, "metrics.aliyuncs.com"@),
        ("Version"@, "2017-03-01"@),
        ("Action"@, "QueryMetricList"@),
        ("Length"@, "1000"@),
        ("StartTime"@, spec_decimal(basestamp as int)),
        ("EndTime"@, spec_decimal(basestamp + INTERVAL)),
    ]
}

/// The parameters every metric query starts with.
pub fn argv_new_base(basestamp: u64) -> (argv: Vec<[String; 2]>)
    requires
        basestamp + INTERVAL <= u64::MAX,
    ensures
        pairs_view(argv@) == base_params(basestamp),
{
    let mut argv: Vec<[String; 2]> = Vec::new();
    argv.push(pair("Domain", "metrics.aliyuncs.com".to_owned()));
    argv.push(pair("Version", "2017-03-01".to_owned()));
    argv.push(pair("Action", "QueryMetricList".to_owned()));
    argv.push(pair("Length", "1000".to_owned()));
    argv.push(pair("StartTime", decimal(basestamp as i128)));
    argv.push(pair("EndTime", decimal((basestamp + INTERVAL) as i128)));
    assert(pairs_view(argv@) =~= base_params(basestamp));
    argv
}

/// What a page of a metric query answer leads to: whether the answer is handed on to
/// be read, and the next page's query, if any.
pub struct PageStep {
    pub forward: bool,
    pub next: Option<Vec<[String; 2]>>,
}

/// An answer to a metric query page: whether its body is JSON, and the string
/// `Cursor` it holds, if any.
pub struct PageReply {
    pub parsed: bool,
    pub cursor: Option<String>,
}

/// The query for the page after `cursor`: the first page's query with the cursor.
pub open spec fn cursor_params(
    query: Seq<(Seq<char>, Seq<char>)>,
    cursor: Seq<char>,
) -> Seq<(Seq<char>, Seq<char>)> {
    query.push(("Cursor"@, cursor))
}

/// A copy of the parameters `v`.
pub fn copy_params(v: &Vec<[String; 2]>) -> (c: Vec<[String; 2]>)
    ensures
        pairs_view(c@) == pairs_view(v@),
{
    let mut c: Vec<[String; 2]> = Vec::new();
    let mut i: usize = 0;
    while i < v.len()
        invariant
            i <= v@.len(),
            c@.len() == i,
            forall|j: int| 0 <= j < i ==> pair_view(#[trigger] c@[j]) == pair_view(v@[j]),
        decreases v@.len() - i,
    {
        let p = &v[i];
        c.push([p[0].clone(), p[1].clone()]);
        i = i + 1;
    }
    assert(pairs_view(c@) =~= pairs_view(v@));
    c
}

/// An answer to a metric query page as paging reads it: `None` when the request failed,
/// else whether the body is JSON other than null, and its string `Cursor`.
pub open spec fn reply_view(r: Option<PageReply>) -> Option<(bool, Option<Seq<char>>)> {
    match r {
        Some(p) => Some((p.parsed, opt_text(p.cursor))),
        None => None,
    }
}

/// Whether an answer is handed on to be read: it is JSON other than null.
pub open spec fn handed_on(r: Option<(bool, Option<Seq<char>>)>) -> bool {
    r matches Some((p, _)) && p
}

/// The cursor an answer leads on with: its string `Cursor`, when it is handed on.
pub open spec fn cursor_after(r: Option<(bool, Option<Seq<char>>)>) -> Option<Seq<char>> {
    match r {
        Some((true, c)) => c,
        _ => None,
    }
}

/// What answer `reply` to a page of the metric query `query` leads to: whether it is
/// handed on, and the query of the next page, the first page's query with the answer's
/// cursor.
pub open spec fn page_step_spec(
    query: Seq<(Seq<char>, Seq<char>)>,
    reply: Option<(bool, Option<Seq<char>>)>,
) -> (bool, Option<Seq<(Seq<char>, Seq<char>)>>) {
    (
        handed_on(reply),
        match cursor_after(reply) {
            Some(c) => Some(cursor_params(query, c)),
            None => None,
        },
    )
}

/// The pages of the metric query `query` as they are asked for, from the page asked
/// with `q`, when `replies` are the answers in turn: of each page, its query and whether
/// its answer is handed on. Paging stops after an answer that leads to no next page, or
/// when the answers run out.
pub open spec fn page_walk(
    query: Seq<(Seq<char>, Seq<char>)>,
    q: Seq<(Seq<char>, Seq<char>)>,
    replies: Seq<Option<(bool, Option<Seq<char>>)>>,
) -> Seq<(Seq<(Seq<char>, Seq<char>)>, bool)>
    decreases replies.len(),
{
    if replies.len() == 0 {
        Seq::empty()
    } else {
        let st = page_step_spec(query, replies[0]);
        seq![(q, st.0)] + match st.1 {
            Some(n) => page_walk(query, n, replies.drop_first()),
            None => Seq::empty(),
        }
    }
}

/// Whether page query `q` is the one asked after answer `r`: the first page's query
/// `query` with the answer's cursor, which it has.
pub open spec fn asked_after(
    query: Seq<(Seq<char>, Seq<char>)>,
    q: Seq<(Seq<char>, Seq<char>)>,
    r: Option<(bool, Option<Seq<char>>)>,
) -> bool {
    cursor_after(r) is Some && q == cursor_params(query, cursor_after(r)->0)
}

/// Each page of a metric query is asked for once, in order, and paging stops where the
/// answers say: the first page is asked with `q`; each next page with the first page's
/// query `query` and the string `Cursor` of the answer before it; an answer is handed on
/// exactly when it is JSON other than null; and paging stops early only after an answer
/// that is not handed on or holds no string `Cursor`.
pub proof fn lemma_page_walk(
    query: Seq<(Seq<char>, Seq<char>)>,
    q: Seq<(Seq<char>, Seq<char>)>,
    replies: Seq<Option<(bool, Option<Seq<char>>)>>,
)
    ensures
        page_walk(query, q, replies).len() <= replies.len(),
        replies.len() > 0 ==> page_walk(query, q, replies).len() > 0 && page_walk(
            query,
            q,
            replies,
        )[0].0 == q,
        forall|k: int|
            0 <= k < page_walk(query, q, replies).len() ==> #[trigger] page_walk(
                query,
                q,
                replies,
            )[k].1 == handed_on(replies[k]),
        forall|k: int|
            1 <= k < page_walk(query, q, replies).len() ==> #[trigger] asked_after(
                query,
                page_walk(query, q, replies)[k].0,
                replies[k - 1],
            ),
        0 < page_walk(query, q, replies).len() < replies.len() ==> cursor_after(
            replies[page_walk(query, q, replies).len() - 1],
        ) is None,
    decreases replies.len(),
{
    if replies.len() > 0 {
        let st = page_step_spec(query, replies[0]);
        match st.1 {
            Some(n) => {
                let rest = replies.drop_first();
                lemma_page_walk(query, n, rest);
                let w2 = page_walk(query, n, rest);
                assert(page_walk(query, q, replies) =~= seq![(q, st.0)] + w2);
                assert forall|k: int| 0 <= k < page_walk(query, q, replies).len() implies #[trigger] page_walk(
                    query,
                    q,
                    replies,
                )[k].1 == handed_on(replies[k]) by {
                    if k > 0 {
                        assert(page_walk(query, q, replies)[k] == w2[k - 1]);
                        assert(replies[k] == rest[k - 1]);
                    }
                }
                assert(cursor_after(replies[0]) is Some && n == cursor_params(
                    query,
                    cursor_after(replies[0])->0,
                ));
                assert forall|k: int| 1 <= k < page_walk(query, q, replies).len() implies #[trigger] asked_after(
                    query,
                    page_walk(query, q, replies)[k].0,
                    replies[k - 1],
                ) by {
                    assert(page_walk(query, q, replies)[k] == w2[k - 1]);
                    if k > 1 {
                        assert(replies[k - 1] == rest[k - 2]);
                        assert(asked_after(query, w2[k - 1].0, rest[(k - 1) - 1]));
                    } else {
                        assert(rest.len() > 0);
                        assert(w2[0].0 == n);
                    }
                }
                if 0 < page_walk(query, q, replies).len() < replies.len() {
                    assert(w2.len() < rest.len());
                    assert(w2.len() > 0);
                    assert(replies[page_walk(query, q, replies).len() - 1] == rest[w2.len() - 1]);
                }
            },
            None => {
                assert(page_walk(query, q, replies) =~= seq![(q, st.0)]);
            },
        }
    }
}

/// The step after an answer to a page of the query `query` (`None`: the request
/// failed): an answer that is not JSON ends the query and is dropped; one that is
/// JSON is read, and its cursor, if any, asks for the next page.
pub fn page_step(query: &Vec<[String; 2]>, reply: Option<PageReply>) -> (st: PageStep)
    ensures
        st.forward == page_step_spec(pairs_view(query@), reply_view(reply)).0,
        match page_step_spec(pairs_view(query@), reply_view(reply)).1 {
            Some(n) => st.next matches Some(m) && pairs_view(m@) == n,
            None => st.next is None,
        },
{
    match reply {
        Some(r) => {
            if r.parsed {
                match r.cursor {
                    Some(c) => {
                        let mut n = copy_params(query);
                        n.push(pair("Cursor", c));
                        assert(pairs_view(n@) =~= cursor_params(pairs_view(query@), c@));
                        PageStep { forward: true, next: Some(n) }
                    },
                    None => PageStep { forward: true, next: None },
                }
            } else {
                PageStep { forward: false, next: None }
            }
        },
        None => PageStep { forward: false, next: None },
    }
}

/// The parameters of the region list query.
pub open spec fn regions_params() -> Seq<(Seq<char>, Seq<char>)> {
    seq![
        ("Domain"@, "ecs.aliyuncs.com"@),
        ("Version"@, "2014-05-26"@),
        ("Action"@, "DescribeRegions"@),
    ]
}

/// The parameters of the region list query.
pub fn regions_argv() -> (argv: Vec<[String; 2]>)
    ensures
        pairs_view(argv@) == regions_params(),
{
    let mut argv: Vec<[String; 2]> = Vec::new();
    argv.push(pair("Domain", "ecs.aliyuncs.com".to_owned()));
    argv.push(pair("Version", "2014-05-26".to_owned()));
    argv.push(pair("Action", "DescribeRegions".to_owned()));
    assert(pairs_view(argv@) =~= regions_params());
    argv
}

/// The regions of a region list answer: its `RegionId`s, in order, when each is a
/// string (`None` marks one that is not).
pub open spec fn regions_of_spec(ids: Seq<Option<Seq<char>>>) -> Option<Seq<Seq<char>>> {
    if forall|i: int| 0 <= i < ids.len() ==> (#[trigger] ids[i]) is Some {
        Some(ids.map_values(|o: Option<Seq<char>>| o->0))
    } else {
        None
    }
}

/// The regions of a region list answer (`None`: the request failed or the answer is not
/// JSON); `None` when a `RegionId` is not a string.
pub fn regions_of(reply: Option<Vec<Option<String>>>) -> (r: Option<Vec<String>>)
    ensures
        reply is None ==> r is None,
        reply matches Some(ids) ==> match regions_of_spec(
            ids@.map_values(|o: Option<String>| opt_text(o)),
        ) {
            Some(s) => r matches Some(v) && v@.map_values(|x: String| x@) == s,
            None => r is None,
        },
{
    if reply.is_none() {
        return None;
    }
    let ids = reply.unwrap();
    let ghost tv = ids@.map_values(|o: Option<String>| opt_text(o));
    let mut out: Vec<String> = Vec::new();
    let mut i: usize = 0;
    while i < ids.len()
        invariant
            reply == Some(ids),
            tv == ids@.map_values(|o: Option<String>| opt_text(o)),
            i <= ids@.len(),
            out@.len() == i,
            forall|j: int| 0 <= j < i ==> (#[trigger] tv[j]) is Some,
            forall|j: int| 0 <= j < i ==> (#[trigger] out@[j])@ == tv[j]->0,
        decreases ids@.len() - i,
    {
        match &ids[i] {
            Some(s) => out.push(s.clone()),
            None => {
                assert(tv[i as int] is None);
                assert(regions_of_spec(tv) is None);
                return None;
            },
        }
        i = i + 1;
    }
    assert(out@.map_values(|x: String| x@) =~= tv.map_values(|o: Option<Seq<char>>| o->0));
    Some(out)
}

/// The `RegionId`s of a region list answer `v`: of each entry of `Regions.Region` up to
/// the first null, its `RegionId` text, `None` for one that is not a string.
pub open spec fn region_ids(v: Json) -> Seq<Option<Seq<char>>> {
    elements(member(member(v, "Regions"@), "Region"@)).map_values(
        |e: Json| text_of(member(e, "RegionId"@)),
    )
}

/// The regions that a region list answer of bytes `b` gives: none when the bytes are
/// not JSON, are null, or a `RegionId` is not a string.
pub open spec fn regions_answer(b: Seq<u8>) -> Option<Seq<Seq<char>>> {
    match json_of(b) {
        Some(v) => if v is Null {
            None
        } else {
            regions_of_spec(region_ids(v))
        },
        None => None,
    }
}

/// The text of member `key` of each of `items`, `None` for one that is not a string.
pub fn texts_at(items: &Vec<&Json>, key: &str) -> (r: Vec<Option<String>>)
    ensures
        r@.map_values(|o: Option<String>| opt_text(o)) == items@.map_values(
            |e: &Json| text_of(member(*e, key@)),
        ),
{
    let mut out: Vec<Option<String>> = Vec::new();
    let mut i: usize = 0;
    while i < items.len()
        invariant
            i <= items@.len(),
            out@.len() == i,
            out@.map_values(|o: Option<String>| opt_text(o)) == items@.take(i as int).map_values(
                |e: &Json| text_of(member(*e, key@)),
            ),
        decreases items@.len() - i,
    {
        let g = get(items[i], key);
        let t = text(g);
        assert(opt_text(t) == text_of(member(*items@[i as int], key@)));
        let ghost before = out@;
        out.push(t);
        assert(out@ =~= before.push(t));
        assert(items@.take(i + 1) =~= items@.take(i as int).push(items@[i as int]));
        let ghost lhs = out@.map_values(|o: Option<String>| opt_text(o));
        let ghost rhs = items@.take(i + 1).map_values(|e: &Json| text_of(member(*e, key@)));
        let ghost prev = before.map_values(|o: Option<String>| opt_text(o));
        assert forall|k: int| 0 <= k < lhs.len() implies lhs[k] == rhs[k] by {
            if k < i {
                assert(out@[k] == before[k]);
                assert(prev[k] == opt_text(before[k]));
                assert(lhs[k] == prev[k]);
                assert(items@.take(i + 1)[k] == items@.take(i as int)[k]);
            }
        }
        assert(out@.map_values(|o: Option<String>| opt_text(o)) =~= items@.take(i + 1).map_values(
            |e: &Json| text_of(member(*e, key@)),
        ));
        i = i + 1;
    }
    assert(items@.take(items@.len() as int) =~= items@);
    out
}

/// The `RegionId`s of a region list answer `v`.
pub fn region_ids_of(v: &Json) -> (r: Vec<Option<String>>)
    ensures
        r@.map_values(|o: Option<String>| opt_text(o)) == region_ids(*v),
{
    let regions: Option<&Json> = match get(v, "Regions") {
        Some(x) => get(x, "Region"),
        None => None,
    };
    let items: Vec<&Json> = match regions {
        Some(x) => elements_of(x),
        None => Vec::new(),
    };
    proof {
        reveal_strlit("Regions");
    }
    let ghost e = elements(member(member(*v, "Regions"@), "Region"@));
    assert(member(Json::Null, "Region"@) == Json::Null);
    assert(items@.len() == e.len());
    let r = texts_at(&items, "RegionId");
    assert(items@.map_values(|x: &Json| text_of(member(*x, "RegionId"@))) =~= e.map_values(
        |x: Json| text_of(member(x, "RegionId"@)),
    ));
    r
}

/// The regions a region list answer gives (`None` for the body: the request failed).
pub fn get_region_of(body: Option<Vec<u8>>) -> (r: Option<Vec<String>>)
    ensures
        match body {
            None => r is None,
            Some(b) => match regions_answer(b@) {
                Some(s) => r matches Some(v) && v@.map_values(|x: String| x@) == s,
                None => r is None,
            },
        },
{
    let b = match body {
        Some(b) => b,
        None => {
            return None;
        },
    };
    match parse_json(b.as_slice()) {
        Some(v) => {
            if let Json::Null = v {
                return None;
            }
            let ids = region_ids_of(&v);
            regions_of(Some(ids))
        },
        None => None,
    }
}

/// What an answer to a metric query page says for paging (`None` for the body: the
/// request failed): whether it is JSON other than null, and its string `Cursor`.
pub open spec fn page_reply_spec(b: Seq<u8>) -> (bool, Option<Seq<char>>) {
    match json_of(b) {
        Some(v) => (!(v is Null), text_of(member(v, "Cursor"@))),
        None => (false, None),
    }
}

/// What an answer to a metric query page says for paging.
pub fn page_reply_of(body: &Option<Vec<u8>>) -> (r: Option<PageReply>)
    ensures
        match body {
            None => r is None,
            Some(b) => r matches Some(p) && p.parsed == page_reply_spec(b@).0 && opt_text(p.cursor)
                == page_reply_spec(b@).1,
        },
{
    match body {
        None => None,
        Some(b) => match parse_json(b.as_slice()) {
            Some(v) => {
                let parsed = match v {
                    Json::Null => false,
                    _ => true,
                };
                Some(PageReply { parsed, cursor: text(get(&v, "Cursor")) })
            },
            None => Some(PageReply { parsed: false, cursor: None }),
        },
    }
}

/// The pattern that finds the available memory of `/proc/meminfo`, in kB, as capture
/// group 2.
pub open spec fn mem_available_pattern() -> Seq<char> {
    "\\s*(MemAvailable):\\s+(\\d+)"@
}

/// The pattern that finds the total memory of `/proc/meminfo`, in kB, as capture
/// group 2.
pub open spec fn mem_total_pattern() -> Seq<char> {
    "\\s*(MemTotal):\\s+(\\d+)"@
}

/// Whether the available memory, given as decimal text, is below `min_keep`; `None`
/// when the text is no `u64`.
pub open spec fn below_keep_spec(avail: Seq<char>, min_keep: u64) -> Option<bool> {
    match spec_parse_u64(avail) {
        Some(v) => Some(min_keep > v),
        None => None,
    }
}

/// Whether the available memory, given as decimal text, is below `min_keep`.
pub fn below_keep(avail: &str, min_keep: u64) -> (r: Option<bool>)
    ensures
        r == below_keep_spec(avail@, min_keep),
{
    match parse_u64(&chars_of(avail)) {
        Some(v) => Some(min_keep > v),
        None => None,
    }
}

/// The memory always left free: 30% of the total, given as decimal text; `None` when
/// the text is no `u64` or three times it is none.
pub open spec fn keep_of_spec(total: Seq<char>) -> Option<u64> {
    match spec_parse_u64(total) {
        Some(v) => if v * 3 <= u64::MAX {
            Some((v * 3 / 10) as u64)
        } else {
            None
        },
        None => None,
    }
}

/// The memory always left free: 30% of the total, given as decimal text.
pub fn keep_of(total: &str) -> (r: Option<u64>)
    ensures
        r == keep_of_spec(total@),
{
    match parse_u64(&chars_of(total)) {
        Some(v) => {
            if v <= u64::MAX / 3 {
                Some(v * 3 / 10)
            } else {
                None
            }
        },
        None => None,
    }
}

/// Whether the available memory that `meminfo` (the text of `/proc/meminfo`) gives is
/// below `min_keep`; `None` when it gives none that reads as a `u64`.
pub fn mem_insufficient(meminfo: &str, min_keep: u64) -> (r: Option<bool>)
    ensures
        r == match regex_capture(mem_available_pattern(), meminfo@, 2) {
            Some(t) => below_keep_spec(t, min_keep),
            None => None,
        },
{
    match capture("\\s*(MemAvailable):\\s+(\\d+)", meminfo, 2) {
        Some(t) => below_keep(t.as_str(), min_keep),
        None => None,
    }
}

/// How many times a request is tried.
pub const ATTEMPTS: u32 = 3;

/// What one try of a request came to.
#[derive(Clone, Copy, PartialEq, Eq, Structural)]
pub enum FetchEvent {
    /// The request could not be sent.
    SendFailed,
    /// Status 200, and the body was read.
    Body,
    /// Status 200, but reading the body failed.
    ReadFailed,
    /// Another status.
    BadStatus,
}

/// What follows a try of a request.
#[derive(Clone, Copy, PartialEq, Eq, Structural)]
pub enum FetchAction {
    /// Give up with the error of sending.
    Fail,
    /// Hand on the body read.
    Deliver,
    /// Try again, after a pause (the API throttles) when `pause`.
    Retry { pause: bool },
    /// No try is left: hand on an empty body, after a pause when `pause`.
    GiveUp { pause: bool },
}

/// What follows try `attempt` (counted from 0) of a request that came to `ev`: a
/// status other than 200 is followed by a pause, a failed read is not.
pub open spec fn fetch_step_spec(attempt: u32, ev: FetchEvent) -> FetchAction {
    match ev {
        FetchEvent::SendFailed => FetchAction::Fail,
        FetchEvent::Body => FetchAction::Deliver,
        _ => {
            let pause = ev == FetchEvent::BadStatus;
            if attempt + 1 < ATTEMPTS {
                FetchAction::Retry { pause }
            } else {
                FetchAction::GiveUp { pause }
            }
        },
    }
}

/// What follows try `attempt` (counted from 0) of a request that came to `ev`.
pub fn fetch_step(attempt: u32, ev: FetchEvent) -> (a: FetchAction)
    requires
        attempt < ATTEMPTS,
    ensures
        a == fetch_step_spec(attempt, ev),
{
    match ev {
        FetchEvent::SendFailed => FetchAction::Fail,
        FetchEvent::Body => FetchAction::Deliver,
        FetchEvent::ReadFailed => {
            if attempt + 1 < ATTEMPTS {
                FetchAction::Retry { pause: false }
            } else {
                FetchAction::GiveUp { pause: false }
            }
        },
        FetchEvent::BadStatus => {
            if attempt + 1 < ATTEMPTS {
                FetchAction::Retry { pause: true }
            } else {
                FetchAction::GiveUp { pause: true }
            }
        },
    }
}

} // verus!
