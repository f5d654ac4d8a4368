//! The query service: which queries go where, and the frames answers are sent in.
use vstd::prelude::*;
use vstd::string::*;

use crate::json::opt_text;
use crate::textbuf::{push_decimal, push_str, spec_decimal, to_string};

pub mod sv;
pub mod sv_analyze;

verus! {

/// What `regex` finds for `pattern` in `text`: the text of capture group `group` of
/// the leftmost-first match, `None` when the pattern does not compile, nothing matches,
/// or the group takes no part in the match.
pub uninterp spec fn regex_capture(pattern: Seq<char>, text: Seq<char>, group: nat) -> Option<
    Seq<char>,
>;

/// Capture group `group` of the first match of `pattern` in `text`, through
/// `regex::Regex::new`, `Regex::captures` and `Captures::get`; claims only that the
/// answer is what those give on these arguments (named `regex_capture`).
#[verifier::external_body]
pub(crate) fn capture(pattern: &str, text: &str, group: usize) -> (r: Option<String>)
    ensures
        r matches Some(s) ==> regex_capture(pattern@, text@, group as nat) == Some(s@),
        r is None ==> regex_capture(pattern@, text@, group as nat) is None,
{
    let re = match regex::Regex::new(pattern) {
        Ok(re) => re,
        Err(_) => return None,
    };
    let caps = re.captures(text)?;
    let m = caps.get(group)?;
    Some(m.as_str().to_string())
}

/// The pattern that finds the method of a request: four word characters after
/// `method":"`.
pub open spec fn method_pattern() -> Seq<char> {
    "method\":\"(\\w{4})"@
}

/// Whether a method, as the pattern finds it, sends a request to the `sv_` queries: it
/// is longer than three bytes and starts with the bytes of "sv_".
pub open spec fn sv_method(m: Option<Seq<char>>) -> bool {
    match m {
        Some(m) => {
            let b = vstd::utf8::encode_utf8(m);
            b.len() > 3 && b.take(3) == seq![115u8, 118, 95]
        },
        None => false,
    }
}

/// Whether a request goes to the `sv_` queries: its method, as the pattern finds it,
/// is longer than three bytes and starts with the bytes of "sv_".
pub open spec fn routes_to_sv(body: Seq<char>) -> bool {
    sv_method(regex_capture(method_pattern(), body, 1))
}

/// Whether method `m` (what the pattern captured; `None`: nothing) goes to the `sv_`
/// queries; `Err` with "method invalid" and id -1 when it does not.
pub fn routes(m: Option<String>) -> (r: Result<(), (String, i32)>)
    ensures
        r is Ok <==> sv_method(opt_text(m)),
        r matches Err((e, id)) ==> e@ == "method invalid"@ && id == -1,
{
    match m {
        Some(m) => {
            let b = m.as_str().as_bytes();
            if b.len() > 3 && b[0] == 115u8 && b[1] == 118u8 && b[2] == 95u8 {
                assert(b@.take(3) =~= seq![115u8, 118, 95]);
                Ok(())
            } else {
                assert(b@.len() > 3 ==> b@.take(3)[0] == b@[0] && b@.take(3)[1] == b@[1] && b@.take(3)[2] == b@[2]);
                Err(("method invalid".to_owned(), -1))
            }
        },
        None => Err(("method invalid".to_owned(), -1)),
    }
}

/// Whether request `body` goes to the `sv_` queries; `Err` with "method invalid" and
/// id -1 when it does not.
pub fn router(body: &str) -> (r: Result<(), (String, i32)>)
    ensures
        r is Ok <==> routes_to_sv(body@),
        r matches Err((e, id)) ==> e@ == "method invalid"@ && id == -1,
{
    let m = capture("method\":\"(\\w{4})", body, 1);
    routes(m)
}

/// The frame of a result: `{"result":<res>,"id":<id>}`.
pub open spec fn result_frame_text(res: Seq<char>, id: i32) -> Seq<char> {
    "{\"result\":"@ + res + ",\"id\":"@ + spec_decimal(id as int) + "}"@
}

/// The frame of an error: `{"err":"<e>","id":<id>}`.
pub open spec fn error_frame_text(e: Seq<char>, id: i32) -> Seq<char> {
    "{\"err\":\""@ + e + "\",\"id\":"@ + spec_decimal(id as int) + "}"@
}

/// The frame a result is sent in.
pub fn result_frame(res: &str, id: i32) -> (s: String)
    ensures
        s@ == result_frame_text(res@, id),
{
    let mut v: Vec<char> = Vec::new();
    push_str(&mut v, "{\"result\":");
    push_str(&mut v, res);
    push_str(&mut v, ",\"id\":");
    push_decimal(&mut v, id as i128);
    push_str(&mut v, "}");
    assert(v@ =~= result_frame_text(res@, id));
    to_string(&v)
}

/// The frame an error is sent in.
pub fn error_frame(e: &str, id: i32) -> (s: String)
    ensures
        s@ == error_frame_text(e@, id),
{
    let mut v: Vec<char> = Vec::new();
    push_str(&mut v, "{\"err\":\"");
    push_str(&mut v, e);
    push_str(&mut v, "\",\"id\":");
    push_decimal(&mut v, id as i128);
    push_str(&mut v, "}");
    assert(v@ =~= error_frame_text(e@, id));
    to_string(&v)
}

/// The frame of an answer: its result, or its error.
pub fn answer_frame(answer: &Result<(String, i32), (String, i32)>) -> (s: String)
    ensures
        match answer {
            Ok((res, id)) => s@ == result_frame_text(res@, *id),
            Err((e, id)) => s@ == error_frame_text(e@, *id),
        },
{
    match answer {
        Ok((res, id)) => result_frame(res.as_str(), *id),
        Err((e, id)) => error_frame(e.as_str(), *id),
    }
}

} // verus!
