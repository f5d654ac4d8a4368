//! The TCP client: sends one request to the query service and prints the answer.
use vstd::prelude::*;

use crate::textbuf::{push_str, to_string};

verus! {

/// The port the client sends to when none is given.
pub const DEFAULT_PORT: &'static str = "20000";

/// The address and the text the client sends, from its arguments (the program name
/// first): `<host> <content>` goes to the default port, `<host> <port> <content>` to the
/// port given; other counts of arguments get `None` (the usage is shown).
pub open spec fn target_spec(args: Seq<Seq<char>>) -> Option<(Seq<char>, Seq<char>)> {
    if args.len() == 3 {
        Some((args[1] + ":"@ + DEFAULT_PORT@, args[2]))
    } else if args.len() == 4 {
        Some((args[1] + ":"@ + args[2], args[3]))
    } else {
        None
    }
}

/// The address and the text the client sends.
pub fn target(args: &Vec<String>) -> (r: Option<(String, String)>)
    ensures
        match target_spec(args@.map_values(|s: String| s@)) {
            Some((addr, content)) => r matches Some((a, c)) && a@ == addr && c@ == content,
            None => r is None,
        },
{
    let ghost v = args@.map_values(|s: String| s@);
    let (port, content): (&str, &str) = if args.len() == 3 {
        (DEFAULT_PORT, args[2].as_str())
    } else if args.len() == 4 {
        (args[2].as_str(), args[3].as_str())
    } else {
        return None;
    };
    assert(v[1] == args@[1]@);
    let mut addr: Vec<char> = Vec::new();
    push_str(&mut addr, args[1].as_str());
    push_str(&mut addr, ":");
    push_str(&mut addr, port);
    let c = content.to_owned();
    Some((to_string(&addr), c))
}

} // verus!
