//! Process state and priority.

use vstd::prelude::*;

use crate::text::to_owned_string;

verus! {

/// Observable state of a process.
#[derive(Debug, Clone, Copy, PartialEq, Eq, Structural)]
pub enum ProcState {
    Running,
    /// Every thread is parked in a suspended wait.
    Suspended,
    Unknown,
}

pub open spec fn proc_state_name(s: ProcState) -> Seq<char> {
    match s {
        ProcState::Running => seq!['R', 'u', 'n', 'n', 'i', 'n', 'g'],
        ProcState::Suspended => seq!['S', 'u', 's', 'p', 'e', 'n', 'd', 'e', 'd'],
        ProcState::Unknown => seq!['U', 'n', 'k', 'n', 'o', 'w', 'n'],
    }
}

impl ProcState {
    /// The state's display name.
    pub fn to_string(&self) -> (r: String)
        ensures
            r@ == proc_state_name(*self),
    {
        proof {
            reveal_strlit("Running");
            reveal_strlit("Suspended");
            reveal_strlit("Unknown");
        }
        match self {
            ProcState::Running => to_owned_string("Running"),
            ProcState::Suspended => to_owned_string("Suspended"),
            ProcState::Unknown => to_owned_string("Unknown"),
        }
    }
}

/// Process priority class, lowest first.
#[derive(Debug, Clone, Copy, PartialEq, Eq, PartialOrd, Ord, Structural)]
pub enum PriorityClass {
    Idle,
    BelowNormal,
    Normal,
    AboveNormal,
    High,
    Realtime,
}

/// Rank of a priority class, `Idle` lowest.
pub open spec fn priority_rank(p: PriorityClass) -> nat {
    match p {
        PriorityClass::Idle => 0,
        PriorityClass::BelowNormal => 1,
        PriorityClass::Normal => 2,
        PriorityClass::AboveNormal => 3,
        PriorityClass::High => 4,
        PriorityClass::Realtime => 5,
    }
}

pub open spec fn priority_name(p: PriorityClass) -> Seq<char> {
    match p {
        PriorityClass::Idle => seq!['I', 'd', 'l', 'e'],
        PriorityClass::BelowNormal => seq!['B', 'e', 'l', 'o', 'w', ' ', 'N', 'o', 'r', 'm', 'a', 'l'],
        PriorityClass::Normal => seq!['N', 'o', 'r', 'm', 'a', 'l'],
        PriorityClass::AboveNormal => seq!['A', 'b', 'o', 'v', 'e', ' ', 'N', 'o', 'r', 'm', 'a', 'l'],
        PriorityClass::High => seq!['H', 'i', 'g', 'h'],
        PriorityClass::Realtime => seq!['R', 'e', 'a', 'l', 't', 'i', 'm', 'e'],
    }
}

impl PriorityClass {
    /// The class's display name.
    pub fn to_string(&self) -> (r: String)
        ensures
            r@ == priority_name(*self),
    {
        proof {
            reveal_strlit("Idle");
            reveal_strlit("Below Normal");
            reveal_strlit("Normal");
            reveal_strlit("Above Normal");
            reveal_strlit("High");
            reveal_strlit("Realtime");
        }
        match self {
            PriorityClass::Idle => to_owned_string("Idle"),
            PriorityClass::BelowNormal => to_owned_string("Below Normal"),
            PriorityClass::Normal => to_owned_string("Normal"),
            PriorityClass::AboveNormal => to_owned_string("Above Normal"),
            PriorityClass::High => to_owned_string("High"),
            PriorityClass::Realtime => to_owned_string("Realtime"),
        }
    }

    /// The class's rank, `Idle` lowest.
    pub fn rank(self) -> (r: u8)
        ensures
            r == priority_rank(self),
    {
        match self {
            PriorityClass::Idle => 0,
            PriorityClass::BelowNormal => 1,
            PriorityClass::Normal => 2,
            PriorityClass::AboveNormal => 3,
            PriorityClass::High => 4,
            PriorityClass::Realtime => 5,
        }
    }
}

} // verus!
