//! A collector of cloud monitoring readings and the query service over them: readings
//! of ECS instances, load balancers, databases and caches are gathered round by round
//! from the Aliyun API, kept in an in-memory cache and a database, and answered to
//! JSON-RPC queries over TCP and HTTP.
use vstd::prelude::*;

pub mod textbuf;
pub mod json;
pub mod strmap;
pub mod sv;
pub mod serv;
pub mod ecs;
pub mod tools;
pub mod inventory;

verus! {

/// The service's configuration.
pub struct Config {
    /// The database to write to and read from.
    pub pg_login_url: String,
    /// Where the TCP query service listens, if it runs.
    pub sv_tcp_addr: Option<String>,
    /// Where the HTTP query service listens, if it runs.
    pub sv_http_addr: Option<String>,
}

impl Config {
    /// Which query services run: (HTTP, TCP); each runs when it has an address.
    pub fn services(&self) -> (r: (bool, bool))
        ensures
            r == (self.sv_http_addr is Some, self.sv_tcp_addr is Some),
    {
        (self.sv_http_addr.is_some(), self.sv_tcp_addr.is_some())
    }
}

/// The memory the collector always leaves free, from the text of `/proc/meminfo`: 30% of
/// the total memory; `None` when the text gives no total that reads as a `u64`.
pub fn mem_min_keep(meminfo: &str) -> (r: Option<u64>)
    ensures
        r == match crate::serv::regex_capture(sv::aliyun::mem_total_pattern(), meminfo@, 2) {
            Some(t) => sv::aliyun::keep_of_spec(t),
            None => None,
        },
{
    match crate::serv::capture("\\s*(MemTotal):\\s+(\\d+)", meminfo, 2) {
        Some(t) => sv::aliyun::keep_of(t.as_str()),
        None => None,
    }
}

} // verus!
