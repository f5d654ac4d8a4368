//! Network interfaces in the per-instance ECS collector.
use vstd::prelude::*;

use crate::strmap::StrMap;

use super::Ecs;

verus! {

/// One interface's readings.
pub struct NetIf {
    /// Device name, such as eth0.
    pub device: String,
    /// Received, in kilobytes.
    pub rd: u32,
    /// Sent, in kilobytes.
    pub wr: u32,
    /// Packets received per second.
    pub rdio: u32,
    /// Packets sent per second.
    pub wrio: u32,
}

/// The interface list query: it takes no arguments, and its answers change nothing.
pub struct Meta;

impl Meta {
    /// The query's arguments: none.
    pub fn argv_new(&self, _region: &str) -> (argv: Vec<String>)
        ensures
            argv@.len() == 0,
    {
        Vec::new()
    }

    /// Takes an interface list answer: the instances stay as they are.
    pub fn insert(&self, holder: &mut StrMap<Ecs>, _data: &Vec<u8>)
        ensures
            final(holder)@ == old(holder)@,
    {
    }
}

} // verus!
