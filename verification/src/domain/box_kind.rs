//! Typed identifier for the named layout boxes (cpu, mem, net, proc,
//! disk, gpuN), and a list of them that keeps the entries that failed to
//! parse for later warnings.

use vstd::prelude::*;

use crate::config::MAX_GPUS;
use crate::text::{chars_eq_str, chars_of, dec, parse_u8_from, push_dec, push_str, string_from_chars, u8_from_str};

verus! {

/// One layout box. `Gpu(n)` is a per-device box with `n < MAX_GPUS`.
#[derive(Debug, Clone, Copy, PartialEq, Eq, Hash, Structural)]
pub enum BoxKind {
    Cpu,
    Mem,
    Net,
    Proc,
    Disk,
    Gpu(u8),
}

/// Error returned when a string names no [`BoxKind`]; carries the input.
#[derive(Debug, Clone, PartialEq, Eq)]
pub struct ParseBoxKindError(pub String);

pub open spec fn gpu_prefix() -> Seq<char> { seq!['g', 'p', 'u'] }

/// Canonical name of a box: `cpu`, `mem`, `net`, `proc`, `disk`, `gpuN`.
pub open spec fn box_name(k: BoxKind) -> Seq<char> {
    match k {
        BoxKind::Cpu => seq!['c', 'p', 'u'],
        BoxKind::Mem => seq!['m', 'e', 'm'],
        BoxKind::Net => seq!['n', 'e', 't'],
        BoxKind::Proc => seq!['p', 'r', 'o', 'c'],
        BoxKind::Disk => seq!['d', 'i', 's', 'k'],
        BoxKind::Gpu(n) => gpu_prefix() + dec(n as nat),
    }
}

/// The box a name denotes: one of the five fixed names, or `gpu`
/// followed by what `u8::from_str` accepts, naming an index below
/// `MAX_GPUS`.
pub open spec fn box_from_name(s: Seq<char>) -> Option<BoxKind> {
    if s == box_name(BoxKind::Cpu) { Some(BoxKind::Cpu) }
    else if s == box_name(BoxKind::Mem) { Some(BoxKind::Mem) }
    else if s == box_name(BoxKind::Net) { Some(BoxKind::Net) }
    else if s == box_name(BoxKind::Proc) { Some(BoxKind::Proc) }
    else if s == box_name(BoxKind::Disk) { Some(BoxKind::Disk) }
    else if s.len() >= 3 && s.subrange(0, 3) == gpu_prefix() {
        match u8_from_str(s.subrange(3, s.len() as int)) {
            Some(n) => if (n as int) < MAX_GPUS { Some(BoxKind::Gpu(n)) } else { None },
            None => None,
        }
    } else {
        None
    }
}

/// A box kind is valid when its GPU index is below `MAX_GPUS`.
pub open spec fn box_valid(k: BoxKind) -> bool {
    match k {
        BoxKind::Gpu(n) => (n as int) < MAX_GPUS,
        _ => true,
    }
}

impl BoxKind {
    /// `Gpu(n)` for `n < MAX_GPUS`, `None` otherwise.
    pub fn gpu(n: usize) -> (r: Option<BoxKind>)
        ensures
            r == if n < MAX_GPUS { Some(BoxKind::Gpu(n as u8)) } else { None::<BoxKind> },
    {
        if n < MAX_GPUS {
            Some(BoxKind::Gpu(n as u8))
        } else {
            None
        }
    }

    /// The canonical name (`"cpu"`, `"gpu3"`, ...).
    pub fn to_string(&self) -> (r: String)
        ensures
            r@ == box_name(*self),
    {
        proof {
            reveal_strlit("cpu");
            reveal_strlit("mem");
            reveal_strlit("net");
            reveal_strlit("proc");
            reveal_strlit("disk");
            reveal_strlit("gpu");
        }
        let mut out = String::new();
        match *self {
            BoxKind::Cpu => push_str(&mut out, "cpu"),
            BoxKind::Mem => push_str(&mut out, "mem"),
            BoxKind::Net => push_str(&mut out, "net"),
            BoxKind::Proc => push_str(&mut out, "proc"),
            BoxKind::Disk => push_str(&mut out, "disk"),
            BoxKind::Gpu(n) => {
                push_str(&mut out, "gpu");
                push_dec(&mut out, n as u64);
            },
        }
        assert(out@ =~= box_name(*self));
        out
    }

    /// Parse a box name; the error carries the input.
    pub fn parse(s: &str) -> (r: Result<BoxKind, ParseBoxKindError>)
        ensures
            match box_from_name(s@) {
                Some(k) => r == Ok::<BoxKind, ParseBoxKindError>(k),
                None => r matches Err(e) && e.0@ == s@,
            },
    {
        let v = chars_of(s);
        match Self::from_chars(&v) {
            Some(k) => Ok(k),
            None => Err(ParseBoxKindError(string_from_chars(&v))),
        }
    }

    /// The box named by the characters `v`, if any.
    pub fn from_chars(v: &Vec<char>) -> (r: Option<BoxKind>)
        ensures
            r == box_from_name(v@),
    {
        proof {
            reveal_strlit("cpu");
            reveal_strlit("mem");
            reveal_strlit("net");
            reveal_strlit("proc");
            reveal_strlit("disk");
            assert("cpu"@ =~= box_name(BoxKind::Cpu));
            assert("mem"@ =~= box_name(BoxKind::Mem));
            assert("net"@ =~= box_name(BoxKind::Net));
            assert("proc"@ =~= box_name(BoxKind::Proc));
            assert("disk"@ =~= box_name(BoxKind::Disk));
        }
        if chars_eq_str(v, "cpu") {
            return Some(BoxKind::Cpu);
        }
        if chars_eq_str(v, "mem") {
            return Some(BoxKind::Mem);
        }
        if chars_eq_str(v, "net") {
            return Some(BoxKind::Net);
        }
        if chars_eq_str(v, "proc") {
            return Some(BoxKind::Proc);
        }
        if chars_eq_str(v, "disk") {
            return Some(BoxKind::Disk);
        }
        if v.len() >= 3 && v[0] == 'g' && v[1] == 'p' && v[2] == 'u' {
            assert(v@.subrange(0, 3) =~= gpu_prefix());
            match parse_u8_from(v, 3) {
                Some(n) => {
                    if (n as usize) < MAX_GPUS {
                        Some(BoxKind::Gpu(n))
                    } else {
                        None
                    }
                },
                None => None,
            }
        } else {
            proof {
                if v@.len() >= 3 && v@.subrange(0, 3) == gpu_prefix() {
                    assert(v@[0] == v@.subrange(0, 3)[0]);
                    assert(v@[1] == v@.subrange(0, 3)[1]);
                    assert(v@[2] == v@.subrange(0, 3)[2]);
                }
            }
            None
        }
    }
}

/// Every valid box kind's name parses back to it.
pub proof fn lemma_box_name_round_trip(k: BoxKind)
    requires
        box_valid(k),
    ensures
        box_from_name(box_name(k)) == Some(k),
{
    match k {
        BoxKind::Gpu(n) => {
            let s = box_name(k);
            crate::text::lemma_dec_digits(n as nat);
            assert(s.subrange(0, 3) =~= gpu_prefix());
            assert(s.subrange(3, s.len() as int) =~= dec(n as nat));
            assert(s.len() != 3);
            assert(s != box_name(BoxKind::Proc)) by {
                assert(s[0] != box_name(BoxKind::Proc)[0]);
            }
            assert(s != box_name(BoxKind::Disk)) by {
                assert(s[0] != box_name(BoxKind::Disk)[0]);
            }
            assert(dec(n as nat)[0] != '+');
            assert(crate::text::sign_stripped(dec(n as nat)) == dec(n as nat));
            assert(crate::text::all_digits(dec(n as nat)));
        },
        _ => {
            assert(box_name(BoxKind::Cpu) != box_name(BoxKind::Mem));
            assert(box_name(BoxKind::Cpu) != box_name(BoxKind::Net));
            assert(box_name(BoxKind::Mem) != box_name(BoxKind::Net));
            assert(box_name(BoxKind::Proc) != box_name(BoxKind::Disk));
        },
    }
}

/// A list of [`BoxKind`]s plus the raw entries that failed to parse when
/// it was read, kept for one later warning.
#[derive(Debug, Clone, Default, PartialEq, Eq)]
pub struct BoxList {
    items: Vec<BoxKind>,
    invalid: Vec<String>,
}

impl BoxList {
    /// The boxes, in order.
    pub closed spec fn items(&self) -> Seq<BoxKind> {
        self.items@
    }

    /// The raw entries that failed to parse.
    pub closed spec fn invalid(&self) -> Seq<Seq<char>> {
        self.invalid@.map_values(|s: String| s@)
    }

    pub fn new(items: Vec<BoxKind>) -> (r: BoxList)
        ensures
            r.items() == items@,
            r.invalid() == Seq::<Seq<char>>::empty(),
    {
        let r = BoxList { items, invalid: Vec::new() };
        assert(r.invalid() =~= Seq::<Seq<char>>::empty());
        r
    }

    pub fn from_kinds<const N: usize>(kinds: [BoxKind; N]) -> (r: BoxList)
        ensures
            r.items() == kinds@,
            r.invalid() == Seq::<Seq<char>>::empty(),
    {
        let mut items: Vec<BoxKind> = Vec::new();
        let mut i: usize = 0;
        while i < N
            invariant
                i <= N,
                N == kinds@.len(),
                items@ == kinds@.subrange(0, i as int),
            decreases N - i,
        {
            items.push(kinds[i]);
            i = i + 1;
            assert(items@ =~= kinds@.subrange(0, i as int));
        }
        assert(items@ =~= kinds@);
        Self::new(items)
    }

    /// Read a list from raw names: entries that parse are kept in order,
    /// the others are captured as invalid, in order.
    pub fn from_names(raw: &Vec<String>) -> (r: BoxList)
        ensures
            r.items() == raw@.map_values(|s: String| s@).filter(|s: Seq<char>| box_from_name(s) is Some)
                .map_values(|s: Seq<char>| box_from_name(s)->0),
            r.invalid() == raw@.map_values(|s: String| s@).filter(|s: Seq<char>| box_from_name(s) is None),
    {
        let ghost names = raw@.map_values(|s: String| s@);
        let mut items: Vec<BoxKind> = Vec::new();
        let mut invalid: Vec<String> = Vec::new();
        let mut i: usize = 0;
        while i < raw.len()
            invariant
                i <= raw.len(),
                names == raw@.map_values(|s: String| s@),
                items@ == names.subrange(0, i as int).filter(|s: Seq<char>| box_from_name(s) is Some)
                    .map_values(|s: Seq<char>| box_from_name(s)->0),
                invalid@.map_values(|s: String| s@) == names.subrange(0, i as int).filter(|s: Seq<char>| box_from_name(s) is None),
            decreases raw.len() - i,
        {
            let v = chars_of(raw[i].as_str());
            let ghost pre = names.subrange(0, i as int);
            proof {
                reveal_with_fuel(Seq::<Seq<char>>::filter, 1);
                assert(names.subrange(0, i + 1).drop_last() =~= pre);
                assert(names[i as int] == raw@[i as int]@);
            }
            match BoxKind::from_chars(&v) {
                Some(k) => {
                    proof {
                        let f = pre.filter(|s: Seq<char>| box_from_name(s) is Some);
                        assert(f.push(names[i as int]).map_values(|s: Seq<char>| box_from_name(s)->0)
                            =~= f.map_values(|s: Seq<char>| box_from_name(s)->0).push(k));
                    }
                    items.push(k);
                },
                None => {
                    let s = string_from_chars(&v);
                    proof {
                        assert(invalid@.push(s).map_values(|s: String| s@) =~= invalid@.map_values(|s: String| s@).push(s@));
                    }
                    invalid.push(s);
                },
            }
            i = i + 1;
        }
        assert(names.subrange(0, raw.len() as int) =~= names);
        BoxList { items, invalid }
    }

    pub fn as_slice(&self) -> (r: &[BoxKind])
        ensures
            r@ == self.items(),
    {
        self.items.as_slice()
    }

    pub fn push(&mut self, kind: BoxKind)
        ensures
            final(self).items() == old(self).items().push(kind),
            final(self).invalid() == old(self).invalid(),
    {
        self.items.push(kind);
    }

    /// Remove the first occurrence of `kind`; `true` iff there was one.
    pub fn remove_kind(&mut self, kind: BoxKind) -> (r: bool)
        ensures
            r == old(self).items().contains(kind),
            r ==> exists|i: int| 0 <= i < old(self).items().len() && old(self).items()[i] == kind
                && (forall|j: int| 0 <= j < i ==> old(self).items()[j] != kind)
                && final(self).items() == old(self).items().remove(i),
            !r ==> final(self).items() == old(self).items(),
            final(self).invalid() == old(self).invalid(),
    {
        let mut i: usize = 0;
        while i < self.items.len()
            invariant
                i <= self.items.len(),
                self.items@ == old(self).items@,
                self.invalid@ == old(self).invalid@,
                forall|j: int| 0 <= j < i ==> self.items@[j] != kind,
            decreases self.items.len() - i,
        {
            if self.items[i] == kind {
                self.items.remove(i);
                proof {
                    let w = i as int;
                    assert(self.items() == old(self).items().remove(w));
                    assert(0 <= w < old(self).items().len() && old(self).items()[w] == kind
                        && (forall|j: int| 0 <= j < w ==> old(self).items()[j] != kind)
                        && self.items() == old(self).items().remove(w));
                }
                return true;
            }
            i = i + 1;
        }
        false
    }

    /// Hand back the captured invalid entries and forget them.
    pub fn take_invalid(&mut self) -> (r: Vec<String>)
        ensures
            r@.map_values(|s: String| s@) == old(self).invalid(),
            final(self).invalid() == Seq::<Seq<char>>::empty(),
            final(self).items() == old(self).items(),
    {
        let mut r: Vec<String> = Vec::new();
        std::mem::swap(&mut r, &mut self.invalid);
        assert(self.invalid() =~= Seq::<Seq<char>>::empty());
        r
    }
}

impl std::str::FromStr for BoxKind {
    type Err = ParseBoxKindError;

    fn from_str(s: &str) -> (r: Result<Self, Self::Err>)
        ensures
            match box_from_name(s@) {
                Some(k) => r == Ok::<BoxKind, ParseBoxKindError>(k),
                None => r matches Err(e) && e.0@ == s@,
            },
    {
        BoxKind::parse(s)
    }
}

} // verus!
