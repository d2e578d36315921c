//! Network interface readings and their histories.

use std::collections::VecDeque;
use vstd::prelude::*;

verus! {

/// Download and upload bandwidth histories.
#[derive(Debug, Clone)]
pub struct NetBandwidth {
    pub download: VecDeque<i64>,
    pub upload: VecDeque<i64>,
}

impl Default for NetBandwidth {
    fn default() -> (r: Self)
        ensures
            r.download@.len() == 0,
            r.upload@.len() == 0,
    {
        NetBandwidth { download: VecDeque::new(), upload: VecDeque::new() }
    }
}

/// Speed counters of one direction.
#[derive(Debug, Copy, Clone)]
pub struct NetStat {
    pub speed: u64,
    pub top: u64,
    pub last: u64,
    pub total: u64,
}

impl Default for NetStat {
    fn default() -> (r: Self)
        ensures
            r.speed == 0 && r.top == 0 && r.last == 0 && r.total == 0,
    {
        NetStat { speed: 0, top: 0, last: 0, total: 0 }
    }
}

/// Counters of both directions.
#[derive(Debug, Copy, Clone)]
pub struct NetStatPair {
    pub download: NetStat,
    pub upload: NetStat,
}

impl Default for NetStatPair {
    fn default() -> (r: Self)
        ensures
            r.download == (NetStat { speed: 0, top: 0, last: 0, total: 0 }),
            r.upload == (NetStat { speed: 0, top: 0, last: 0, total: 0 }),
    {
        NetStatPair { download: NetStat::default(), upload: NetStat::default() }
    }
}

/// One network interface.
#[derive(Debug, Clone)]
pub struct NetInfo {
    pub name: String,
    pub bandwidth: NetBandwidth,
    pub stat: NetStatPair,
    pub ipv4: String,
    pub ipv6: String,
    pub connected: bool,
    pub link_speed: u64,
}

impl Default for NetInfo {
    fn default() -> (r: Self)
        ensures
            r.name@.len() == 0 && r.ipv4@.len() == 0 && r.ipv6@.len() == 0,
            r.bandwidth.download@.len() == 0 && r.bandwidth.upload@.len() == 0,
            r.stat.download == (NetStat { speed: 0, top: 0, last: 0, total: 0 }),
            r.stat.upload == (NetStat { speed: 0, top: 0, last: 0, total: 0 }),
            !r.connected,
            r.link_speed == 0,
    {
        NetInfo {
            name: String::new(),
            bandwidth: NetBandwidth::default(),
            stat: NetStatPair::default(),
            ipv4: String::new(),
            ipv6: String::new(),
            connected: false,
            link_speed: 0,
        }
    }
}

} // verus!
