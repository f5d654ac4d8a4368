//! JSON texts the query service reads and writes, through `serde_json`.
use vstd::prelude::*;

use crate::textbuf::spec_decimal;

verus! {

/// Texts joined by commas.
pub open spec fn join_commas(parts: Seq<Seq<char>>) -> Seq<char>
    decreases parts.len(),
{
    if parts.len() == 0 {
        Seq::empty()
    } else if parts.len() == 1 {
        parts[0]
    } else {
        join_commas(parts.drop_last()) + seq![','] + parts.last()
    }
}

/// A JSON array of integers, written compactly.
pub open spec fn json_int_list(xs: Seq<int>) -> Seq<char> {
    seq!['['] + join_commas(xs.map_values(|x: int| spec_decimal(x))) + seq![']']
}

/// Whether JSON writes `s` inside quotes as it is: no quote, backslash or control
/// character.
pub open spec fn plain_json_text(s: Seq<char>) -> bool {
    forall|i: int| 0 <= i < s.len() ==> (#[trigger] s[i]) != '"' && s[i] != '\\' && s[i] >= ' '
}

/// A JSON array of strings that need no escape, written compactly.
pub open spec fn json_str_list(xs: Seq<Seq<char>>) -> Seq<char> {
    seq!['['] + join_commas(xs.map_values(|x: Seq<char>| seq!['"'] + x + seq!['"'])) + seq![']']
}

/// The JSON text of a series as a pair of arrays: stamps, then values.
pub open spec fn json_series_text(keys: Seq<i32>, vals: Seq<i64>) -> Seq<char> {
    seq!['['] + json_int_list(keys.map_values(|k: i32| k as int)) + seq![','] + json_int_list(
        vals.map_values(|v: i64| v as int),
    ) + seq![']']
}

/// The JSON text of reductions as a pair of arrays: names, then values.
pub open spec fn json_named_text(names: Seq<Seq<char>>, vals: Seq<i64>) -> Seq<char> {
    seq!['['] + json_str_list(names) + seq![','] + json_int_list(
        vals.map_values(|v: i64| v as int),
    ) + seq![']']
}

/// What `serde_json::from_str::<Vec<(i32, Option<i64>)>>` gives for `text`: the rows of
/// a JSON array of `[stamp, value-or-null]` pairs, or `None` when the text is not one.
pub uninterp spec fn json_rows(text: Seq<char>) -> Option<Seq<(i32, Option<i64>)>>;

/// Reads a JSON array of `[stamp, value-or-null]` pairs with
/// `serde_json::from_str::<Vec<(i32, Option<i64>)>>`; claims only that the answer is
/// the function's result on `text` (named `json_rows`), `None` where it reports an error.
#[verifier::external_body]
pub(crate) fn parse_rows(text: &str) -> (r: Option<Vec<(i32, Option<i64>)>>)
    ensures
        r matches Some(v) ==> json_rows(text@) == Some(v@),
        r is None ==> json_rows(text@) is None,
{
    serde_json::from_str::<Vec<(i32, Option<i64>)>>(text).ok()
}

/// Writes a series with `serde_json::to_string` on the pair `(keys, vals)`; claims the
/// compact JSON text that serde_json writes for two arrays of integers (it cannot fail
/// on these types).
#[verifier::external_body]
pub(crate) fn series_json(keys: &Vec<i32>, vals: &Vec<i64>) -> (s: String)
    ensures
        s@ == json_series_text(keys@, vals@),
{
    match serde_json::to_string(&(keys, vals)) {
        Ok(s) => s,
        Err(_) => String::new(),
    }
}

/// Writes reductions with `serde_json::to_string` on the pair `(names, vals)`; claims
/// the compact JSON text that serde_json writes for an array of strings that need no
/// escape and an array of integers (it cannot fail on these types).
#[verifier::external_body]
pub(crate) fn named_json(names: &Vec<String>, vals: &Vec<i64>) -> (s: String)
    requires
        forall|i: int| 0 <= i < names@.len() ==> plain_json_text(#[trigger] names@[i]@),
    ensures
        s@ == json_named_text(names@.map_values(|n: String| n@), vals@),
{
    match serde_json::to_string(&(names, vals)) {
        Ok(s) => s,
        Err(_) => String::new(),
    }
}

} // verus!
