//! Data-collection subsystems, a container with one slot per subsystem,
//! and the events the main loop handles.

use vstd::prelude::*;

use crate::input::Key;
use crate::text::{dec, push_dec, to_owned_string};

verus! {

/// A data-collection subsystem; `Gpu(n)` is the collector of device `n`.
#[derive(Debug, Clone, Copy, PartialEq, Eq, Hash, Structural)]
pub enum SubsystemKind {
    Cpu,
    Mem,
    Disk,
    Net,
    Gpu(u8),
    Proc,
    Statusbar,
}

/// Every subsystem in canonical order with `gpu_count` devices: the four
/// base subsystems, `Gpu(0..gpu_count)`, then process and status bar.
pub open spec fn all_subsystems(gpu_count: u8) -> Seq<SubsystemKind> {
    seq![SubsystemKind::Cpu, SubsystemKind::Mem, SubsystemKind::Disk, SubsystemKind::Net]
        + Seq::new(gpu_count as nat, |i: int| SubsystemKind::Gpu(i as u8))
        + seq![SubsystemKind::Proc, SubsystemKind::Statusbar]
}

/// Diagnostic name of a subsystem.
pub open spec fn subsystem_name(k: SubsystemKind) -> Seq<char> {
    match k {
        SubsystemKind::Cpu => seq!['c', 'p', 'u'],
        SubsystemKind::Mem => seq!['m', 'e', 'm', 'o', 'r', 'y'],
        SubsystemKind::Disk => seq!['d', 'i', 's', 'k'],
        SubsystemKind::Net => seq!['n', 'e', 't', 'w', 'o', 'r', 'k'],
        SubsystemKind::Gpu(n) => seq!['g', 'p', 'u'] + dec(n as nat),
        SubsystemKind::Proc => seq!['p', 'r', 'o', 'c', 'e', 's', 's'],
        SubsystemKind::Statusbar => seq!['s', 't', 'a', 't', 'u', 's', 'b', 'a', 'r'],
    }
}

impl SubsystemKind {
    /// Every subsystem in canonical order for `gpu_count` devices.
    pub fn all_for(gpu_count: u8) -> (r: Vec<SubsystemKind>)
        ensures
            r@ == all_subsystems(gpu_count),
    {
        let mut v = vec![SubsystemKind::Cpu, SubsystemKind::Mem, SubsystemKind::Disk, SubsystemKind::Net];
        let ghost head = v@;
        let mut n: u8 = 0;
        while n < gpu_count
            invariant
                n <= gpu_count,
                head == seq![SubsystemKind::Cpu, SubsystemKind::Mem, SubsystemKind::Disk, SubsystemKind::Net],
                v@ == head + Seq::new(n as nat, |i: int| SubsystemKind::Gpu(i as u8)),
            decreases gpu_count - n,
        {
            v.push(SubsystemKind::Gpu(n));
            n = n + 1;
            assert(v@ =~= head + Seq::new(n as nat, |i: int| SubsystemKind::Gpu(i as u8)));
        }
        v.push(SubsystemKind::Proc);
        v.push(SubsystemKind::Statusbar);
        assert(v@ =~= all_subsystems(gpu_count));
        v
    }

    /// The subsystem's diagnostic name (`gpuN` for device `N`).
    pub fn to_string(&self) -> (r: String)
        ensures
            r@ == subsystem_name(*self),
    {
        proof {
            reveal_strlit("cpu");
            reveal_strlit("memory");
            reveal_strlit("disk");
            reveal_strlit("network");
            reveal_strlit("gpu");
            reveal_strlit("process");
            reveal_strlit("statusbar");
        }
        match self {
            SubsystemKind::Cpu => to_owned_string("cpu"),
            SubsystemKind::Mem => to_owned_string("memory"),
            SubsystemKind::Disk => to_owned_string("disk"),
            SubsystemKind::Net => to_owned_string("network"),
            SubsystemKind::Gpu(n) => {
                let mut s = to_owned_string("gpu");
                push_dec(&mut s, *n as u64);
                s
            },
            SubsystemKind::Proc => to_owned_string("process"),
            SubsystemKind::Statusbar => to_owned_string("statusbar"),
        }
    }
}

/// One value per subsystem, device slots included.
#[derive(Debug, Clone, PartialEq, Eq)]
pub struct PerSubsystem<T> {
    cpu: T,
    mem: T,
    disk: T,
    net: T,
    gpu: Vec<T>,
    process: T,
    statusbar: T,
}

impl<T> PerSubsystem<T> {
    /// Number of device slots.
    pub closed spec fn gpu_slots(&self) -> nat {
        self.gpu@.len()
    }

    /// Whether `kind` has a slot (a device index below the slot count).
    pub open spec fn has(&self, kind: SubsystemKind) -> bool {
        kind matches SubsystemKind::Gpu(n) ==> (n as nat) < self.gpu_slots()
    }

    /// The value in the slot of `kind`.
    pub closed spec fn at(&self, kind: SubsystemKind) -> T {
        match kind {
            SubsystemKind::Cpu => self.cpu,
            SubsystemKind::Mem => self.mem,
            SubsystemKind::Disk => self.disk,
            SubsystemKind::Net => self.net,
            SubsystemKind::Gpu(n) => self.gpu@[n as int],
            SubsystemKind::Proc => self.process,
            SubsystemKind::Statusbar => self.statusbar,
        }
    }

    /// One value per subsystem, in canonical order; `gpu` holds the
    /// device slots.
    pub fn new(cpu: T, mem: T, disk: T, net: T, gpu: Vec<T>, process: T, statusbar: T) -> (r: Self)
        ensures
            r.gpu_slots() == gpu@.len(),
            r.at(SubsystemKind::Cpu) == cpu,
            r.at(SubsystemKind::Mem) == mem,
            r.at(SubsystemKind::Disk) == disk,
            r.at(SubsystemKind::Net) == net,
            r.at(SubsystemKind::Proc) == process,
            r.at(SubsystemKind::Statusbar) == statusbar,
            forall|n: u8| (n as nat) < gpu@.len() ==> #[trigger] r.at(SubsystemKind::Gpu(n)) == gpu@[n as int],
    {
        PerSubsystem { cpu, mem, disk, net, gpu, process, statusbar }
    }

    /// The slot of `kind`.
    pub fn get(&self, kind: SubsystemKind) -> (r: &T)
        requires
            self.has(kind),
        ensures
            *r == self.at(kind),
    {
        match kind {
            SubsystemKind::Cpu => &self.cpu,
            SubsystemKind::Mem => &self.mem,
            SubsystemKind::Disk => &self.disk,
            SubsystemKind::Net => &self.net,
            SubsystemKind::Gpu(n) => &self.gpu[n as usize],
            SubsystemKind::Proc => &self.process,
            SubsystemKind::Statusbar => &self.statusbar,
        }
    }

    /// The slot of `kind`, for writing; every other slot is untouched.
    pub fn get_mut(&mut self, kind: SubsystemKind) -> (r: &mut T)
        requires
            old(self).has(kind),
        ensures
            *r == old(self).at(kind),
            final(self).gpu_slots() == old(self).gpu_slots(),
            final(self).at(kind) == *final(r),
            forall|k: SubsystemKind| k != kind && old(self).has(k) ==> #[trigger] final(self).at(k) == old(self).at(k),
    {
        match kind {
            SubsystemKind::Cpu => &mut self.cpu,
            SubsystemKind::Mem => &mut self.mem,
            SubsystemKind::Disk => &mut self.disk,
            SubsystemKind::Net => &mut self.net,
            SubsystemKind::Gpu(n) => &mut self.gpu[n as usize],
            SubsystemKind::Proc => &mut self.process,
            SubsystemKind::Statusbar => &mut self.statusbar,
        }
    }
}

impl<T: Copy> PerSubsystem<T> {
    /// `fill` in every slot, with `gpu_count` device slots.
    pub fn filled(fill: T, gpu_count: u8) -> (r: Self)
        ensures
            r.gpu_slots() == gpu_count,
            forall|k: SubsystemKind| r.has(k) ==> #[trigger] r.at(k) == fill,
    {
        let mut gpu: Vec<T> = Vec::new();
        let mut n: u8 = 0;
        while n < gpu_count
            invariant
                n <= gpu_count,
                gpu@.len() == n,
                forall|i: int| 0 <= i < n ==> #[trigger] gpu@[i] == fill,
            decreases gpu_count - n,
        {
            gpu.push(fill);
            n = n + 1;
        }
        PerSubsystem { cpu: fill, mem: fill, disk: fill, net: fill, gpu, process: fill, statusbar: fill }
    }

    /// Puts `fill` back in every slot, keeping the device slots.
    pub fn reset_to(&mut self, fill: T)
        ensures
            final(self).gpu_slots() == old(self).gpu_slots(),
            forall|k: SubsystemKind| final(self).has(k) ==> #[trigger] final(self).at(k) == fill,
    {
        let count = self.gpu.len();
        let mut gpu: Vec<T> = Vec::new();
        while gpu.len() < count
            invariant
                gpu@.len() <= count,
                forall|i: int| 0 <= i < gpu@.len() ==> #[trigger] gpu@[i] == fill,
            decreases count - gpu@.len(),
        {
            gpu.push(fill);
        }
        *self = PerSubsystem { cpu: fill, mem: fill, disk: fill, net: fill, gpu, process: fill, statusbar: fill };
    }
}

impl PerSubsystem<bool> {
    /// `false` in every slot, with `gpu_count` device slots.
    pub fn with_default(gpu_count: u8) -> (r: Self)
        ensures
            r.gpu_slots() == gpu_count,
            forall|k: SubsystemKind| r.has(k) ==> #[trigger] r.at(k) == false,
    {
        Self::filled(false, gpu_count)
    }

    /// Clears every slot to `false`, keeping the device slots.
    pub fn reset(&mut self)
        ensures
            final(self).gpu_slots() == old(self).gpu_slots(),
            forall|k: SubsystemKind| final(self).has(k) ==> #[trigger] final(self).at(k) == false,
    {
        self.reset_to(false)
    }
}

/// An event for the main loop.
#[derive(Debug, Clone, Copy, PartialEq, Eq, Structural)]
pub enum AppEvent {
    /// A key was pressed.
    Key(Key),
    /// The terminal was resized.
    Resize,
    /// A subsystem published new data.
    SubsystemReady(SubsystemKind),
}

} // verus!
