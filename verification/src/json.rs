//! JSON values as `serde_json` reads them, and the few ways the library looks into one.
use vstd::prelude::*;

verus! {

/// A JSON value: numbers as an unsigned integer, a negative integer, or another number
/// (a fraction or an exponent), the way `serde_json` holds them; objects as their
/// entries in the order `serde_json` keeps them (by key, each key once).
pub enum Json {
    Null,
    Bool(bool),
    UInt(u64),
    Int(i64),
    OtherNum,
    Str(String),
    Arr(Vec<Json>),
    Obj(Vec<(String, Json)>),
}

#[verifier::external_type_specification]
#[verifier::external_body]
pub struct ExValue(serde_json::Value);

/// What `serde_json::from_slice::<serde_json::Value>` reads from `b`, as a `Json`;
/// `None` where it reports an error.
pub uninterp spec fn json_of(b: Seq<u8>) -> Option<Json>;

/// Turns a `serde_json::Value` into a `Json`, variant by variant; a number goes by
/// `Number::as_u64`, then `Number::as_i64`. Nothing is claimed of it on its own: its
/// one caller's claim covers it.
#[verifier::external_body]
fn from_value(v: serde_json::Value) -> Json {
    match v {
        serde_json::Value::Null => Json::Null,
        serde_json::Value::Bool(b) => Json::Bool(b),
        serde_json::Value::Number(n) => match (n.as_u64(), n.as_i64()) {
            (Some(u), _) => Json::UInt(u),
            (None, Some(i)) => Json::Int(i),
            _ => Json::OtherNum,
        },
        serde_json::Value::String(s) => Json::Str(s),
        serde_json::Value::Array(a) => Json::Arr(a.into_iter().map(from_value).collect()),
        serde_json::Value::Object(m) => Json::Obj(m.into_iter().map(|(k, x)| (k, from_value(x))).collect()),
    }
}

/// Reads `b` with `serde_json::from_slice::<serde_json::Value>`; claims only that the
/// answer is that function's result on `b`, as a `Json` (named `json_of`), `None` where
/// it reports an error.
#[verifier::external_body]
pub(crate) fn parse_json(b: &[u8]) -> (r: Option<Json>)
    ensures
        r matches Some(v) ==> json_of(b@) == Some(v),
        r is None ==> json_of(b@) is None,
{
    serde_json::from_slice::<serde_json::Value>(b).ok().map(from_value)
}

/// The value of the first entry named `k` of entries `es`; null when there is none.
pub open spec fn entry_value(es: Seq<(String, Json)>, k: Seq<char>) -> Json
    decreases es.len(),
{
    if es.len() == 0 {
        Json::Null
    } else if es[0].0@ == k {
        es[0].1
    } else {
        entry_value(es.drop_first(), k)
    }
}

/// The member `k` of an object, as `serde_json` indexes by a key: null when `j` is no
/// object or has no such member.
pub open spec fn member(j: Json, k: Seq<char>) -> Json {
    match j {
        Json::Obj(es) => entry_value(es@, k),
        _ => Json::Null,
    }
}

/// Element `i` of an array, as `serde_json` indexes by a position: null when `j` is no
/// array or is shorter.
pub open spec fn element(j: Json, i: int) -> Json {
    match j {
        Json::Arr(v) => if 0 <= i < v@.len() {
            v@[i]
        } else {
            Json::Null
        },
        _ => Json::Null,
    }
}

/// The values before the first null.
pub open spec fn until_null(s: Seq<Json>) -> Seq<Json>
    decreases s.len(),
{
    if s.len() == 0 || s[0] is Null {
        Seq::empty()
    } else {
        seq![s[0]] + until_null(s.drop_first())
    }
}

/// The elements of an array up to the first null one (none when `j` is no array): what
/// a walk by position that stops at the first null reads.
pub open spec fn elements(j: Json) -> Seq<Json> {
    match j {
        Json::Arr(v) => until_null(v@),
        _ => Seq::empty(),
    }
}

/// The text of a string value.
pub open spec fn text_of(j: Json) -> Option<Seq<char>> {
    match j {
        Json::Str(s) => Some(s@),
        _ => None,
    }
}

/// The value of a number that is an unsigned integer, as `Value::as_u64` gives it.
pub open spec fn u64_of(j: Json) -> Option<u64> {
    match j {
        Json::UInt(u) => Some(u),
        _ => None,
    }
}

/// A text as an optional text.
pub open spec fn opt_text(o: Option<String>) -> Option<Seq<char>> {
    match o {
        Some(s) => Some(s@),
        None => None,
    }
}

/// The member `k` of `j`; `None` stands for null.
pub fn get<'a>(j: &'a Json, k: &str) -> (r: Option<&'a Json>)
    ensures
        match r {
            Some(x) => *x == member(*j, k@),
            None => member(*j, k@) == Json::Null,
        },
{
    match j {
        Json::Obj(es) => {
            let mut i: usize = 0;
            assert(es@.skip(0) =~= es@);
            while i < es.len()
                invariant
                    i <= es@.len(),
                    member(*j, k@) == entry_value(es@, k@),
                    entry_value(es@, k@) == entry_value(es@.skip(i as int), k@),
                decreases es@.len() - i,
            {
                assert(es@.skip(i as int).drop_first() =~= es@.skip(i + 1));
                assert(es@.skip(i as int)[0] == es@[i as int]);
                if crate::textbuf::str_eq(es[i].0.as_str(), k) {
                    return Some(&es[i].1);
                }
                i = i + 1;
            }
            assert(es@.skip(i as int).len() == 0);
            None
        },
        _ => None,
    }
}

/// Element `i` of `j`; `None` stands for null.
pub fn at<'a>(j: &'a Json, i: usize) -> (r: Option<&'a Json>)
    ensures
        match r {
            Some(x) => *x == element(*j, i as int),
            None => element(*j, i as int) == Json::Null,
        },
{
    match j {
        Json::Arr(v) => {
            if i < v.len() {
                Some(&v[i])
            } else {
                None
            }
        },
        _ => None,
    }
}

/// The elements of `j` up to the first null one.
pub fn elements_of(j: &Json) -> (r: Vec<&Json>)
    ensures
        r@.len() == elements(*j).len(),
        forall|i: int| 0 <= i < r@.len() ==> *(#[trigger] r@[i]) == elements(*j)[i],
{
    let mut out: Vec<&Json> = Vec::new();
    match j {
        Json::Arr(v) => {
            let mut i: usize = 0;
            assert(v@.skip(0) =~= v@);
            assert(v@.take(0) + until_null(v@) =~= until_null(v@));
            while i < v.len()
                invariant
                    elements(*j) == until_null(v@),
                    i <= v@.len(),
                    out@.len() == i,
                    forall|k: int| 0 <= k < i ==> !(v@[k] is Null),
                    forall|k: int| 0 <= k < i ==> *(#[trigger] out@[k]) == v@[k],
                    until_null(v@) == v@.take(i as int) + until_null(v@.skip(i as int)),
                decreases v@.len() - i,
            {
                let ghost rest = v@.skip(i as int);
                assert(rest[0] == v@[i as int]);
                assert(rest.drop_first() =~= v@.skip(i + 1));
                if let Json::Null = &v[i] {
                    assert(until_null(rest) =~= Seq::<Json>::empty());
                    assert(until_null(v@) =~= v@.take(i as int));
                    return out;
                }
                out.push(&v[i]);
                assert(v@.take(i + 1) =~= v@.take(i as int).push(v@[i as int]));
                assert(until_null(v@) =~= v@.take(i + 1) + until_null(v@.skip(i + 1)));
                i = i + 1;
            }
            assert(v@.skip(i as int) =~= Seq::<Json>::empty());
            assert(until_null(v@) =~= v@.take(i as int));
            out
        },
        _ => out,
    }
}

/// The text of `j`, if it is a string.
pub fn text(j: Option<&Json>) -> (r: Option<String>)
    ensures
        opt_text(r) == match j {
            Some(x) => text_of(*x),
            None => None,
        },
{
    match j {
        Some(Json::Str(s)) => Some(s.clone()),
        _ => None,
    }
}

/// The value of `j`, if it is an unsigned integer.
pub fn unsigned(j: Option<&Json>) -> (r: Option<u64>)
    ensures
        r == match j {
            Some(x) => u64_of(*x),
            None => None,
        },
{
    match j {
        Some(Json::UInt(u)) => Some(*u),
        _ => None,
    }
}

} // verus!
