//! The inventory command: lists the provider's regions, then each region's instances,
//! through the provider's command-line client.
use vstd::prelude::*;

use crate::json::{get, json_of, member, parse_json, text, text_of, Json};
use crate::sv::aliyun::{region_ids, region_ids_of, regions_of, regions_of_spec};
use crate::textbuf::{all_digits, chars_of, digits_value, parse_u64, spec_parse_u64};

verus! {

/// The command-line arguments of the region list query.
pub open spec fn regions_args() -> Seq<Seq<char>> {
    seq![
        "-domain"@,
        "ecs.aliyuncs.com"@,
        "-apiName"@,
        "DescribeRegions"@,
        "-apiVersion"@,
        "2014-05-26"@,
        "Action"@,
        "DescribeRegions"@,
    ]
}

/// The command-line arguments of the region list query.
pub fn regions_argv() -> (argv: Vec<String>)
    ensures
        argv@.map_values(|s: String| s@) == regions_args(),
{
    let mut argv: Vec<String> = Vec::new();
    argv.push("-domain".to_owned());
    argv.push("ecs.aliyuncs.com".to_owned());
    argv.push("-apiName".to_owned());
    argv.push("DescribeRegions".to_owned());
    argv.push("-apiVersion".to_owned());
    argv.push("2014-05-26".to_owned());
    argv.push("Action".to_owned());
    argv.push("DescribeRegions".to_owned());
    assert(argv@.map_values(|s: String| s@) =~= regions_args());
    argv
}

/// The regions of a region list answer, or why there are none: the client's error,
/// "E0!" when the answer is not JSON or is null, "json parse err" when a `RegionId` is
/// not a string.
pub open spec fn region_parse_spec(out: Result<Seq<u8>, Seq<char>>) -> Result<
    Seq<Seq<char>>,
    Seq<char>,
> {
    match out {
        Err(e) => Err(e),
        Ok(b) => match json_of(b) {
            Some(v) => if v is Null {
                Err("E0!"@)
            } else {
                match regions_of_spec(region_ids(v)) {
                    Some(s) => Ok(s),
                    None => Err("json parse err"@),
                }
            },
            None => Err("E0!"@),
        },
    }
}

/// The client's output as bytes, or its error as text.
pub open spec fn out_view(out: Result<Vec<u8>, String>) -> Result<Seq<u8>, Seq<char>> {
    match out {
        Ok(b) => Ok(b@),
        Err(e) => Err(e@),
    }
}

/// The regions of a region list answer (the client's output, or its error), or why there
/// are none.
pub fn region_parse(out: Result<Vec<u8>, String>) -> (r: Result<Vec<String>, String>)
    ensures
        match region_parse_spec(out_view(out)) {
            Ok(s) => r matches Ok(v) && v@.map_values(|x: String| x@) == s,
            Err(e) => r matches Err(m) && m@ == e,
        },
{
    let b = match out {
        Err(e) => {
            return Err(e);
        },
        Ok(b) => b,
    };
    match parse_json(b.as_slice()) {
        Some(v) => {
            if let Json::Null = v {
                return Err("E0!".to_owned());
            }
            let ids = region_ids_of(&v);
            match regions_of(Some(ids)) {
                Some(r) => Ok(r),
                None => Err("json parse err".to_owned()),
            }
        },
        None => Err("E0!".to_owned()),
    }
}

/// The command-line arguments of the instance list query of `region`, 100 per page.
pub open spec fn meta_args(region: Seq<char>) -> Seq<Seq<char>> {
    seq![
        "-domain"@,
        "ecs.aliyuncs.com"@,
        "-apiName"@,
        "DescribeInstances"@,
        "-apiVersion"@,
        "2014-05-26"@,
        "-region"@,
        region,
        "Action"@,
        "DescribeInstances"@,
        "PageSize"@,
        "100"@,
    ]
}

/// The command-line arguments of the instance list query of `region`.
pub fn meta_argv(region: &str) -> (argv: Vec<String>)
    ensures
        argv@.map_values(|s: String| s@) == meta_args(region@),
{
    let mut argv: Vec<String> = Vec::new();
    argv.push("-domain".to_owned());
    argv.push("ecs.aliyuncs.com".to_owned());
    argv.push("-apiName".to_owned());
    argv.push("DescribeInstances".to_owned());
    argv.push("-apiVersion".to_owned());
    argv.push("2014-05-26".to_owned());
    argv.push("-region".to_owned());
    argv.push(region.to_owned());
    argv.push("Action".to_owned());
    argv.push("DescribeInstances".to_owned());
    argv.push("PageSize".to_owned());
    argv.push("100".to_owned());
    assert(argv@.map_values(|s: String| s@) =~= meta_args(region@));
    argv
}

/// What `str::parse::<i32>` gives: an optional sign then at least one decimal digit,
/// denoting a number within `i32`.
pub open spec fn spec_parse_i32(s: Seq<char>) -> Option<i32> {
    if s.len() > 0 && s[0] == '-' {
        let body = s.drop_first();
        if body.len() > 0 && all_digits(body) && digits_value(body) <= 0x8000_0000 {
            Some((-digits_value(body)) as i32)
        } else {
            None
        }
    } else {
        match spec_parse_u64(s) {
            Some(v) => if v <= 0x7fff_ffff {
                Some(v as i32)
            } else {
                None
            },
            None => None,
        }
    }
}

/// `str::parse::<i32>`.
pub fn parse_i32(s: &str) -> (r: Option<i32>)
    ensures
        r == spec_parse_i32(s@),
{
    let v = chars_of(s);
    if v.len() > 0 && v[0] == '-' {
        let mut body: Vec<char> = Vec::new();
        let mut i: usize = 1;
        while i < v.len()
            invariant
                1 <= i <= v@.len(),
                body@ == v@.subrange(1, i as int),
            decreases v@.len() - i,
        {
            body.push(v[i]);
            i = i + 1;
        }
        assert(body@ =~= s@.drop_first());
        if body.len() > 0 && body[0] == '+' {
            assert(!all_digits(body@)) by {
                assert(crate::textbuf::digit_value(body@[0]) is None);
            }
            return None;
        }
        assert(crate::textbuf::unsigned_body(body@) == body@);
        match parse_u64(&body) {
            Some(n) => {
                if n <= 0x8000_0000 {
                    Some((0 - (n as i64)) as i32)
                } else {
                    None
                }
            },
            None => None,
        }
    } else {
        match parse_u64(&v) {
            Some(n) => {
                if n <= 0x7fff_ffff {
                    Some(n as i32)
                } else {
                    None
                }
            },
            None => None,
        }
    }
}

/// The instance count of an instance list answer, or why there is none: the client's
/// error, "E1!" when the answer is not JSON or is null, "E2!" when `TotalCount` is not a
/// string; a count that does not read as an `i32` counts 0.
pub open spec fn meta_parse_spec(out: Result<Seq<u8>, Seq<char>>) -> Result<i32, Seq<char>> {
    match out {
        Err(e) => Err(e),
        Ok(b) => match json_of(b) {
            Some(v) => if v is Null {
                Err("E1!"@)
            } else {
                match text_of(member(v, "TotalCount"@)) {
                    Some(t) => Ok(
                        match spec_parse_i32(t) {
                            Some(n) => n,
                            None => 0,
                        },
                    ),
                    None => Err("E2!"@),
                }
            },
            None => Err("E1!"@),
        },
    }
}

/// The instance count of an instance list answer (the client's output, or its error),
/// or why there is none.
pub fn meta_parse(out: &Result<Vec<u8>, String>) -> (r: Result<i32, String>)
    ensures
        match meta_parse_spec(out_view(*out)) {
            Ok(n) => r == Ok::<i32, String>(n),
            Err(e) => r matches Err(m) && m@ == e,
        },
{
    match out {
        Err(e) => Err(e.clone()),
        Ok(b) => match parse_json(b.as_slice()) {
            Some(v) => {
                if let Json::Null = v {
                    return Err("E1!".to_owned());
                }
                match text(get(&v, "TotalCount")) {
                    Some(t) => match parse_i32(t.as_str()) {
                        Some(n) => Ok(n),
                        None => Ok(0),
                    },
                    None => Err("E2!".to_owned()),
                }
            },
            None => Err("E1!".to_owned()),
        },
    }
}

} // verus!
