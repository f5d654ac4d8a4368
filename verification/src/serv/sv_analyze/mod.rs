//! The analysis queries: each is answered with an empty result and its own id.
use vstd::prelude::*;
use vstd::string::*;

use crate::json::{get, json_of, member, parse_json, Json};

verus! {

/// The id of a request body `b`: its `id` member, when the body is JSON and that member
/// is an integer within `i32`.
pub open spec fn request_id(b: Seq<u8>) -> Option<i32> {
    match json_of(b) {
        Some(v) => match member(v, "id"@) {
            Json::UInt(u) => if u <= i32::MAX {
                Some(u as i32)
            } else {
                None
            },
            Json::Int(i) => if i32::MIN <= i <= i32::MAX {
                Some(i as i32)
            } else {
                None
            },
            _ => None,
        },
        None => None,
    }
}

/// Answers an analysis query: an empty result with the request's id; "json parse err"
/// with id -1 when the body gives no id.
pub fn worker(body: &str) -> (r: Result<(String, i32), (String, i32)>)
    ensures
        match request_id(body.spec_bytes()) {
            Some(id) => r matches Ok((s, n)) && s@ == Seq::<char>::empty() && n == id,
            None => r matches Err((e, n)) && e@ == "json parse err"@ && n == -1,
        },
{
    let id: Option<i32> = match parse_json(body.as_bytes()) {
        Some(v) => match get(&v, "id") {
            Some(Json::UInt(u)) => if *u <= 0x7fff_ffff {
                Some(*u as i32)
            } else {
                None
            },
            Some(Json::Int(i)) => if -0x8000_0000 <= *i && *i <= 0x7fff_ffff {
                Some(*i as i32)
            } else {
                None
            },
            _ => None,
        },
        None => None,
    };
    match id {
        Some(n) => Ok((String::new(), n)),
        None => Err(("json parse err".to_owned(), -1)),
    }
}

} // verus!
