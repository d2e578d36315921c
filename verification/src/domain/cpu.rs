//! CPU usage histories.

use std::collections::VecDeque;
use vstd::prelude::*;

use crate::domain::config_enums::CpuGraphSource;

verus! {

/// Aggregate CPU usage histories by category.
#[derive(Debug, Clone)]
pub struct CpuPercent {
    pub total: VecDeque<i64>,
    pub user: VecDeque<i64>,
    pub system: VecDeque<i64>,
    pub idle: VecDeque<i64>,
}

impl Default for CpuPercent {
    fn default() -> (r: Self)
        ensures
            r.total@.len() == 0 && r.user@.len() == 0 && r.system@.len() == 0 && r.idle@.len() == 0,
    {
        CpuPercent { total: VecDeque::new(), user: VecDeque::new(), system: VecDeque::new(), idle: VecDeque::new() }
    }
}

impl CpuPercent {
    /// The history a graph row shows: `User` and `System` their own,
    /// `Auto` and `Total` the aggregate.
    pub fn series(&self, source: CpuGraphSource) -> (r: &VecDeque<i64>)
        ensures
            *r == match source {
                CpuGraphSource::User => self.user,
                CpuGraphSource::System => self.system,
                CpuGraphSource::Auto | CpuGraphSource::Total => self.total,
            },
    {
        match source {
            CpuGraphSource::User => &self.user,
            CpuGraphSource::System => &self.system,
            CpuGraphSource::Auto | CpuGraphSource::Total => &self.total,
        }
    }
}

} // verus!
