//! Memory readings and their histories.

use std::collections::VecDeque;
use vstd::prelude::*;

verus! {

/// Memory and swap amounts in bytes.
#[derive(Debug, Clone)]
pub struct MemStats {
    pub used: u64,
    pub available: u64,
    pub cached: u64,
    pub free: u64,
    pub swap_total: u64,
    pub swap_used: u64,
    pub swap_free: u64,
}

impl Default for MemStats {
    fn default() -> (r: Self)
        ensures
            r.used == 0 && r.available == 0 && r.cached == 0 && r.free == 0,
            r.swap_total == 0 && r.swap_used == 0 && r.swap_free == 0,
    {
        MemStats { used: 0, available: 0, cached: 0, free: 0, swap_total: 0, swap_used: 0, swap_free: 0 }
    }
}

/// Percentage histories of the memory categories.
#[derive(Debug, Clone)]
pub struct MemPercent {
    pub used: VecDeque<i64>,
    pub available: VecDeque<i64>,
    pub cached: VecDeque<i64>,
    pub free: VecDeque<i64>,
    pub swap_used: VecDeque<i64>,
    pub swap_free: VecDeque<i64>,
}

impl Default for MemPercent {
    fn default() -> (r: Self)
        ensures
            r.used@.len() == 0 && r.available@.len() == 0 && r.cached@.len() == 0,
            r.free@.len() == 0 && r.swap_used@.len() == 0 && r.swap_free@.len() == 0,
    {
        MemPercent {
            used: VecDeque::new(),
            available: VecDeque::new(),
            cached: VecDeque::new(),
            free: VecDeque::new(),
            swap_used: VecDeque::new(),
            swap_free: VecDeque::new(),
        }
    }
}

/// Memory readings with their histories.
#[derive(Debug, Clone)]
pub struct MemInfo {
    pub stats: MemStats,
    pub percent: MemPercent,
}

impl Default for MemInfo {
    fn default() -> (r: Self)
        ensures
            r.stats.used == 0 && r.stats.available == 0 && r.stats.cached == 0 && r.stats.free == 0,
            r.stats.swap_total == 0 && r.stats.swap_used == 0 && r.stats.swap_free == 0,
            r.percent.used@.len() == 0 && r.percent.available@.len() == 0 && r.percent.cached@.len() == 0,
            r.percent.free@.len() == 0 && r.percent.swap_used@.len() == 0 && r.percent.swap_free@.len() == 0,
    {
        MemInfo { stats: MemStats::default(), percent: MemPercent::default() }
    }
}

} // verus!
