//! `WidgetSet` — a set of [`WidgetKind`]s with inline storage, one
//! membership flag per kind.

use vstd::prelude::*;

use crate::domain::widget_kind::{all_widgets, lemma_per_widget_read_write, PerWidget, WidgetKind};

verus! {

/// A set of [`WidgetKind`]s with inline `O(1)` membership.
#[derive(Debug, Clone, Copy, PartialEq, Eq, Structural)]
pub struct WidgetSet {
    pub members: PerWidget<bool>,
}

impl View for WidgetSet {
    type V = Set<WidgetKind>;

    open spec fn view(&self) -> Set<WidgetKind> {
        Set::new(|k: WidgetKind| self.members.at(k))
    }
}

/// `s` with `k`'s membership flipped.
pub open spec fn toggled(s: Set<WidgetKind>, k: WidgetKind) -> Set<WidgetKind> {
    if s.contains(k) { s.remove(k) } else { s.insert(k) }
}

/// The members of `s` in canonical order.
pub open spec fn members_in_order(s: Set<WidgetKind>) -> Seq<WidgetKind> {
    all_widgets().filter(|k: WidgetKind| s.contains(k))
}

pub open spec fn no_members() -> PerWidget<bool> {
    PerWidget { cpu: false, mem: false, net: false, process: false, disk: false, gpu: false, statusbar: false }
}

proof fn lemma_all_widgets_cover(k: WidgetKind)
    ensures
        all_widgets().contains(k),
{
    match k {
        WidgetKind::Cpu => assert(all_widgets()[0] == k),
        WidgetKind::Mem => assert(all_widgets()[1] == k),
        WidgetKind::Net => assert(all_widgets()[2] == k),
        WidgetKind::Proc => assert(all_widgets()[3] == k),
        WidgetKind::Disk => assert(all_widgets()[4] == k),
        WidgetKind::Gpu => assert(all_widgets()[5] == k),
        WidgetKind::Statusbar => assert(all_widgets()[6] == k),
    }
}

impl WidgetSet {
    /// An empty set.
    pub fn new() -> (r: WidgetSet)
        ensures
            r@ == Set::<WidgetKind>::empty(),
    {
        let r = WidgetSet { members: PerWidget { cpu: false, mem: false, net: false, process: false, disk: false, gpu: false, statusbar: false } };
        assert(r@ =~= Set::<WidgetKind>::empty());
        r
    }

    /// `true` if no widgets are in the set.
    pub fn is_empty(&self) -> (r: bool)
        ensures
            r == (self@ == Set::<WidgetKind>::empty()),
    {
        let r = !self.members.cpu && !self.members.mem && !self.members.net && !self.members.process
            && !self.members.disk && !self.members.gpu && !self.members.statusbar;
        proof {
            if r {
                assert(self@ =~= Set::<WidgetKind>::empty());
            } else {
                if !self.members.cpu && !self.members.mem && !self.members.net && !self.members.process
                    && !self.members.disk && !self.members.gpu {
                    assert(self@.contains(WidgetKind::Statusbar));
                } else if !self.members.cpu && !self.members.mem && !self.members.net && !self.members.process && !self.members.disk {
                    assert(self@.contains(WidgetKind::Gpu));
                } else if !self.members.cpu && !self.members.mem && !self.members.net && !self.members.process {
                    assert(self@.contains(WidgetKind::Disk));
                } else if !self.members.cpu && !self.members.mem && !self.members.net {
                    assert(self@.contains(WidgetKind::Proc));
                } else if !self.members.cpu && !self.members.mem {
                    assert(self@.contains(WidgetKind::Net));
                } else if !self.members.cpu {
                    assert(self@.contains(WidgetKind::Mem));
                } else {
                    assert(self@.contains(WidgetKind::Cpu));
                }
            }
        }
        r
    }

    /// `true` if `kind` is in the set.
    pub fn contains(&self, kind: WidgetKind) -> (r: bool)
        ensures
            r == self@.contains(kind),
    {
        *self.members.get(kind)
    }

    /// Add `kind`. Returns whether the set changed.
    pub fn insert(&mut self, kind: WidgetKind) -> (r: bool)
        ensures
            final(self)@ == old(self)@.insert(kind),
            r == !old(self)@.contains(kind),
    {
        let ghost before = self.members;
        let slot = self.members.get_mut(kind);
        let was_present = *slot;
        *slot = true;
        proof {
            assert forall|j: WidgetKind| self.members.at(j) == (before.at(j) || j == kind) by {
                lemma_per_widget_read_write(before, kind, j, true);
            }
            assert(self@ =~= old(self)@.insert(kind));
        }
        !was_present
    }

    /// Flip `kind`'s membership. Returns whether `kind` is in the set
    /// afterwards.
    pub fn toggle(&mut self, kind: WidgetKind) -> (r: bool)
        ensures
            r == !old(self)@.contains(kind),
            final(self)@ == toggled(old(self)@, kind),
    {
        let ghost before = self.members;
        let slot = self.members.get_mut(kind);
        *slot = !*slot;
        let r = *slot;
        proof {
            assert forall|j: WidgetKind| self.members.at(j) == (if j == kind { r } else { before.at(j) }) by {
                lemma_per_widget_read_write(before, kind, j, r);
            }
            if r {
                assert(self@ =~= old(self)@.insert(kind));
            } else {
                assert(self@ =~= old(self)@.remove(kind));
            }
        }
        r
    }

    /// Remove every member.
    pub fn clear(&mut self)
        ensures
            final(self)@ == Set::<WidgetKind>::empty(),
    {
        self.members = PerWidget { cpu: false, mem: false, net: false, process: false, disk: false, gpu: false, statusbar: false };
        assert(self@ =~= Set::<WidgetKind>::empty());
    }

    /// The members in canonical order (cpu, mem, net, proc, disk, gpu,
    /// statusbar).
    pub fn iter(&self) -> (r: Vec<WidgetKind>)
        ensures
            r@ == members_in_order(self@),
    {
        let all = WidgetKind::all();
        let mut r: Vec<WidgetKind> = Vec::new();
        let mut i: usize = 0;
        while i < all.len()
            invariant
                all@ == all_widgets(),
                i <= all.len(),
                r@ == all_widgets().subrange(0, i as int).filter(|k: WidgetKind| self@.contains(k)),
            decreases all.len() - i,
        {
            let k = all[i];
            proof {
                reveal_with_fuel(Seq::<WidgetKind>::filter, 1);
                assert(all_widgets().subrange(0, i + 1).drop_last() =~= all_widgets().subrange(0, i as int));
            }
            if self.contains(k) {
                r.push(k);
            }
            i = i + 1;
        }
        assert(all_widgets().subrange(0, 7) =~= all_widgets());
        r
    }

    /// Add every member of `other`.
    pub fn extend_from(&mut self, other: &WidgetSet)
        ensures
            final(self)@ == old(self)@.union(other@),
    {
        let ks = other.iter();
        let mut i: usize = 0;
        while i < ks.len()
            invariant
                i <= ks.len(),
                ks@ == members_in_order(other@),
                forall|k: WidgetKind| self@.contains(k) == (old(self)@.contains(k) || ks@.subrange(0, i as int).contains(k)),
            decreases ks.len() - i,
        {
            self.insert(ks[i]);
            proof {
                let pre = ks@.subrange(0, i as int);
                let post = ks@.subrange(0, i + 1);
                assert(post =~= pre.push(ks@[i as int]));
                assert forall|k: WidgetKind| post.contains(k) == (pre.contains(k) || k == ks@[i as int]) by {
                    if post.contains(k) && k != ks@[i as int] {
                        let w = choose|w: int| 0 <= w < post.len() && post[w] == k;
                        assert(pre[w] == k);
                    }
                    if pre.contains(k) {
                        let w = choose|w: int| 0 <= w < pre.len() && pre[w] == k;
                        assert(post[w] == k);
                    }
                    if k == ks@[i as int] {
                        assert(post[i as int] == k);
                    }
                }
            }
            i = i + 1;
        }
        proof {
            assert(ks@.subrange(0, ks.len() as int) =~= ks@);
            assert forall|k: WidgetKind| ks@.contains(k) == other@.contains(k) by {
                lemma_all_widgets_cover(k);
                if other@.contains(k) {
                    let idx = choose|idx: int| 0 <= idx < all_widgets().len() && all_widgets()[idx] == k;
                    all_widgets().lemma_filter_contains(|x: WidgetKind| other@.contains(x), idx);
                }
                if ks@.contains(k) {
                    all_widgets().lemma_filter_contains_rev(|x: WidgetKind| other@.contains(x), k);
                }
            }
            assert(self@ =~= old(self)@.union(other@));
        }
    }
}

impl Default for WidgetSet {
    fn default() -> (r: WidgetSet)
        ensures
            r@ == Set::<WidgetKind>::empty(),
    {
        WidgetSet::new()
    }
}

/// Two sets are equal exactly when they have the same members, whatever
/// order the members were added in.
pub proof fn lemma_equal_iff_same_members(a: WidgetSet, b: WidgetSet)
    ensures
        (a == b) == (a@ == b@),
{
    if a@ == b@ {
        assert(a@.contains(WidgetKind::Cpu) == b@.contains(WidgetKind::Cpu));
        assert(a@.contains(WidgetKind::Mem) == b@.contains(WidgetKind::Mem));
        assert(a@.contains(WidgetKind::Net) == b@.contains(WidgetKind::Net));
        assert(a@.contains(WidgetKind::Proc) == b@.contains(WidgetKind::Proc));
        assert(a@.contains(WidgetKind::Disk) == b@.contains(WidgetKind::Disk));
        assert(a@.contains(WidgetKind::Gpu) == b@.contains(WidgetKind::Gpu));
        assert(a@.contains(WidgetKind::Statusbar) == b@.contains(WidgetKind::Statusbar));
        assert(a.members == b.members);
    }
}

/// Toggling a widget twice restores the set.
pub proof fn lemma_toggle_twice(s: Set<WidgetKind>, k: WidgetKind)
    ensures
        toggled(toggled(s, k), k) == s,
{
    if s.contains(k) {
        assert(s.remove(k).insert(k) =~= s);
    } else {
        assert(s.insert(k).remove(k) =~= s);
    }
}

} // verus!
