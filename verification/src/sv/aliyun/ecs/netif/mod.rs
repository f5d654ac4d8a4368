//! Network interface readings of ECS instances, by IP address.
use vstd::prelude::*;

use crate::textbuf::div_trunc;

pub mod rd;
pub mod rd_tps;
pub mod wr;
pub mod wr_tps;

verus! {

/// One interface's readings.
#[derive(Clone, Copy, PartialEq, Eq, Structural)]
pub struct NetIf {
    /// Received, in kilobytes.
    pub rd: i32,
    /// Sent, in kilobytes.
    pub wr: i32,
    /// Packets received per second.
    pub rdtps: i32,
    /// Packets sent per second.
    pub wrtps: i32,
}

/// The readings of an interface not read yet.
pub open spec fn netif_zero() -> NetIf {
    NetIf { rd: 0, wr: 0, rdtps: 0, wrtps: 0 }
}

/// Which reading of an interface a metric sets, and how.
#[derive(Clone, Copy, PartialEq, Eq, Structural)]
pub enum NetIfField {
    /// Bits per second in, stored as kilobytes.
    Rd,
    /// Packets per second in.
    RdTps,
    /// Bits per second out, stored as kilobytes.
    Wr,
    /// Packets per second out.
    WrTps,
}

/// A rate in bits per second as kilobytes: divided by 8, then by 1024, rounding toward
/// zero each time.
pub open spec fn bits_to_kb(v: i32) -> i32 {
    div_trunc(div_trunc(v as int, 8), 1024) as i32
}

/// `n` with reading `f` set from the value `v`.
pub open spec fn netif_set(n: NetIf, f: NetIfField, v: i32) -> NetIf {
    match f {
        NetIfField::Rd => NetIf { rd: bits_to_kb(v), ..n },
        NetIfField::RdTps => NetIf { rdtps: v, ..n },
        NetIfField::Wr => NetIf { wr: bits_to_kb(v), ..n },
        NetIfField::WrTps => NetIf { wrtps: v, ..n },
    }
}

/// A rate in bits per second as kilobytes.
pub fn to_kb(v: i32) -> (r: i32)
    ensures
        r == bits_to_kb(v),
{
    v / 8 / 1024
}

/// A traffic rate in bits per second, kept as kilobytes: divided by 8 and then by 1024,
/// each rounding toward zero, which is the division by 8192 rounding toward zero.
pub proof fn lemma_bits_to_kb(v: i32)
    ensures
        v >= 0 ==> bits_to_kb(v) == v / 8192,
        v < 0 ==> bits_to_kb(v) == -((-v) / 8192),
{
    if v >= 0 {
        vstd::arithmetic::div_mod::lemma_div_denominator(v as int, 8, 1024);
    } else {
        vstd::arithmetic::div_mod::lemma_div_denominator(-v, 8, 1024);
        assert(div_trunc(v as int, 8) == -((-v) / 8));
        assert((-v) / 8 >= 0);
        assert(div_trunc(-((-v) / 8), 1024) == -(((-v) / 8) / 1024));
    }
}

/// Each interface reading sets its own field and only it: inbound traffic the
/// kilobytes received, outbound traffic the kilobytes sent (bits per second over 8192,
/// rounded toward zero), inbound and outbound packet rates the packets received and
/// sent per second.
pub proof fn lemma_netif_set_fields(n: NetIf, v: i32)
    ensures
        netif_set(n, NetIfField::Rd, v) == (NetIf { rd: bits_to_kb(v), ..n }),
        netif_set(n, NetIfField::Wr, v) == (NetIf { wr: bits_to_kb(v), ..n }),
        netif_set(n, NetIfField::RdTps, v) == (NetIf { rdtps: v, ..n }),
        netif_set(n, NetIfField::WrTps, v) == (NetIf { wrtps: v, ..n }),
        v >= 0 ==> netif_set(n, NetIfField::Rd, v).rd == v / 8192 && netif_set(
            n,
            NetIfField::Wr,
            v,
        ).wr == v / 8192,
        netif_set(n, NetIfField::Wr, v).rd == n.rd,
        netif_set(n, NetIfField::Rd, v).wr == n.wr,
{
    lemma_bits_to_kb(v);
}

impl NetIf {
    pub fn new() -> (n: NetIf)
        ensures
            n == netif_zero(),
    {
        NetIf { rd: 0, wr: 0, rdtps: 0, wrtps: 0 }
    }

    /// Sets reading `f` from the value `v`.
    pub fn set(&mut self, f: NetIfField, v: i32)
        ensures
            *final(self) == netif_set(*old(self), f, v),
    {
        match f {
            NetIfField::Rd => self.rd = to_kb(v),
            NetIfField::RdTps => self.rdtps = v,
            NetIfField::Wr => self.wr = to_kb(v),
            NetIfField::WrTps => wr_tps::setter(self, v),
        }
    }
}

} // verus!
