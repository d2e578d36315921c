//! Disks: the per-volume readings, and the user's drive filter.
//!
//! Filter entries are drive selectors. A bare entry (`"C:"`) joins the
//! included list; one prefixed with `!` (`"!C:"`) joins the excluded list.
//! Selectors are a single ASCII letter followed by `:`, compared without
//! regard to case. An empty filter matches every disk; excludes win over
//! includes; a non-empty included list admits only the drives it names;
//! with only excludes, every other drive passes. Entries that are not
//! selectors are kept aside for warnings and never match anything.

use std::collections::VecDeque;
use vstd::prelude::*;

use crate::text::{chars_of, push_char, str_eq, to_owned_string};

verus! {

pub open spec fn is_ascii_alpha(c: char) -> bool {
    ('a' <= c && c <= 'z') || ('A' <= c && c <= 'Z')
}

/// ASCII upper case of `c`; other characters unchanged.
pub open spec fn ascii_upper(c: char) -> char {
    if 'a' <= c && c <= 'z' { (((c as u32) - 32) as u8) as char } else { c }
}

/// The canonical `X:` form of a drive selector: one ASCII letter, in
/// upper case, followed by `:`.
pub open spec fn drive_letter(s: Seq<char>) -> Option<Seq<char>> {
    if s.len() == 2 && s[1] == ':' && is_ascii_alpha(s[0]) {
        Some(seq![ascii_upper(s[0]), ':'])
    } else {
        None
    }
}

/// What a filter entry contributes: `(true, drive)` to excluded,
/// `(false, drive)` to included, nothing when it is not a selector.
pub open spec fn filter_entry(s: Seq<char>) -> Option<(bool, Seq<char>)> {
    let (ex, body) = if s.len() > 0 && s[0] == '!' { (true, s.drop_first()) } else { (false, s) };
    match drive_letter(body) {
        Some(d) => Some((ex, d)),
        None => None,
    }
}

/// A disk name in the filter's canonical form: its drive letter when it
/// is one, otherwise the name in ASCII upper case.
pub open spec fn normalized_name(s: Seq<char>) -> Seq<char> {
    match drive_letter(s) {
        Some(d) => d,
        None => s.map_values(|c: char| ascii_upper(c)),
    }
}

/// A parsed filter as values: included list, excluded list, invalid entries.
#[verifier::ext_equal]
pub struct FilterView {
    pub included: Seq<Seq<char>>,
    pub excluded: Seq<Seq<char>>,
    pub invalid: Seq<Seq<char>>,
}

/// The filter that `entries` parse to, entries taken in order.
pub open spec fn parsed_filter(entries: Seq<Seq<char>>) -> FilterView
    decreases entries.len(),
{
    if entries.len() == 0 {
        FilterView { included: Seq::empty(), excluded: Seq::empty(), invalid: Seq::empty() }
    } else {
        let f = parsed_filter(entries.drop_last());
        match filter_entry(entries.last()) {
            Some((true, d)) => FilterView { excluded: f.excluded.push(d), ..f },
            Some((false, d)) => FilterView { included: f.included.push(d), ..f },
            None => FilterView { invalid: f.invalid.push(entries.last()), ..f },
        }
    }
}

/// Whether a disk named `name` passes the filter.
pub open spec fn filter_matches(f: FilterView, name: Seq<char>) -> bool {
    if f.included.len() == 0 && f.excluded.len() == 0 {
        true
    } else {
        let n = normalized_name(name);
        !f.excluded.contains(n) && (f.included.len() == 0 || f.included.contains(n))
    }
}

pub open spec fn string_views(v: Seq<String>) -> Seq<Seq<char>> {
    v.map_values(|s: String| s@)
}

/// The user's drive filter.
#[derive(Debug, Clone, PartialEq, Eq)]
pub struct DisksFilter {
    included: Vec<String>,
    excluded: Vec<String>,
    invalid: Vec<String>,
}

/// Information about one disk volume.
#[derive(Debug, Clone, Default)]
pub struct DiskInfo {
    /// Display name (e.g. "C:").
    pub name: String,
    /// Filesystem type (e.g. "NTFS").
    pub fstype: String,
    /// Total capacity in bytes.
    pub total: u64,
    /// Used space in bytes.
    pub used: u64,
    /// Used percentage (0-100).
    pub used_percent: i32,
    /// Current read throughput in bytes/sec.
    pub read_bytes_per_sec: u64,
    /// Current write throughput in bytes/sec.
    pub write_bytes_per_sec: u64,
    /// Highest observed read throughput in bytes/sec.
    pub read_top: u64,
    /// Highest observed write throughput in bytes/sec.
    pub write_top: u64,
    /// Recent read throughput history in bytes/sec.
    pub read_history: VecDeque<i64>,
    /// Recent write throughput history in bytes/sec.
    pub write_history: VecDeque<i64>,
    /// Current busy-time percentage (0-100).
    pub busy_percent: i32,
}

/// All detected volumes, in display order.
#[derive(Debug, Clone, Default)]
pub struct DiskData {
    pub disks: Vec<DiskInfo>,
}

/// The disks of `ds` that pass the filter, in their order.
pub open spec fn kept_disks(f: FilterView, ds: Seq<DiskInfo>) -> Seq<DiskInfo>
    decreases ds.len(),
{
    if ds.len() == 0 {
        Seq::empty()
    } else {
        let k = kept_disks(f, ds.drop_last());
        if filter_matches(f, ds.last().name@) { k.push(ds.last()) } else { k }
    }
}

fn upper_char(c: char) -> (r: char)
    ensures
        r == ascii_upper(c),
{
    if 'a' <= c && c <= 'z' {
        (((c as u32) - 32) as u8) as char
    } else {
        c
    }
}

/// The canonical `X:` form of `v[start..]` when it is a drive selector.
fn drive_letter_from(v: &Vec<char>, start: usize) -> (r: Option<String>)
    requires
        start <= v.len(),
    ensures
        match r {
            Some(s) => drive_letter(v@.skip(start as int)) == Some(s@),
            None => drive_letter(v@.skip(start as int)) is None,
        },
{
    let ghost b = v@.skip(start as int);
    if v.len() - start == 2 && v[start + 1] == ':' {
        let c = v[start];
        assert(b[0] == c && b[1] == ':');
        if ('a' <= c && c <= 'z') || ('A' <= c && c <= 'Z') {
            let mut s = String::new();
            push_char(&mut s, upper_char(c));
            push_char(&mut s, ':');
            assert(s@ =~= seq![ascii_upper(c), ':']);
            return Some(s);
        }
    }
    None
}

/// `name` in the filter's canonical form.
fn normalize_drive_name(name: &str) -> (r: String)
    ensures
        r@ == normalized_name(name@),
{
    let v = chars_of(name);
    assert(v@.skip(0) =~= v@);
    match drive_letter_from(&v, 0) {
        Some(d) => d,
        None => {
            let mut s = String::new();
            let mut i: usize = 0;
            while i < v.len()
                invariant
                    i <= v.len(),
                    v@ == name@,
                    s@ == v@.take(i as int).map_values(|c: char| ascii_upper(c)),
                decreases v.len() - i,
            {
                push_char(&mut s, upper_char(v[i]));
                i = i + 1;
                assert(s@ =~= v@.take(i as int).map_values(|c: char| ascii_upper(c)));
            }
            assert(v@.take(v.len() as int) =~= v@);
            s
        },
    }
}

/// Whether `list` holds a string equal to `s`.
fn contains_str(list: &Vec<String>, s: &str) -> (r: bool)
    ensures
        r == string_views(list@).contains(s@),
{
    let mut i: usize = 0;
    while i < list.len()
        invariant
            i <= list.len(),
            forall|j: int| 0 <= j < i ==> list@[j]@ != s@,
        decreases list.len() - i,
    {
        if str_eq(list[i].as_str(), s) {
            assert(string_views(list@)[i as int] == s@);
            return true;
        }
        i = i + 1;
    }
    proof {
        if string_views(list@).contains(s@) {
            let j = choose|j: int| 0 <= j < string_views(list@).len() && string_views(list@)[j] == s@;
            assert(list@[j]@ == s@);
        }
    }
    false
}

impl DisksFilter {
    /// The filter as values.
    pub closed spec fn view_filter(&self) -> FilterView {
        FilterView {
            included: string_views(self.included@),
            excluded: string_views(self.excluded@),
            invalid: string_views(self.invalid@),
        }
    }

    /// Parses the configured entries into a filter.
    pub fn parse(entries: &[String]) -> (r: DisksFilter)
        ensures
            r.view_filter() == parsed_filter(string_views(entries@)),
    {
        let mut filter = DisksFilter { included: Vec::new(), excluded: Vec::new(), invalid: Vec::new() };
        let mut i: usize = 0;
        proof {
            assert(string_views(entries@).take(0) =~= Seq::<Seq<char>>::empty());
            assert(filter.view_filter() =~= parsed_filter(Seq::<Seq<char>>::empty()));
        }
        while i < entries.len()
            invariant
                i <= entries.len(),
                filter.view_filter() == parsed_filter(string_views(entries@).take(i as int)),
            decreases entries.len() - i,
        {
            let ghost es = string_views(entries@);
            let entry = entries[i].as_str();
            let v = chars_of(entry);
            let is_exclude = v.len() > 0 && v[0] == '!';
            let start: usize = if is_exclude { 1 } else { 0 };
            proof {
                assert(es.take(i + 1).drop_last() =~= es.take(i as int));
                assert(es.take(i + 1).last() == entry@);
                if is_exclude {
                    assert(v@.skip(1) =~= entry@.drop_first());
                } else {
                    assert(v@.skip(0) =~= entry@);
                }
            }
            let ghost before = filter.view_filter();
            match drive_letter_from(&v, start) {
                Some(name) => {
                    if is_exclude {
                        filter.excluded.push(name);
                    } else {
                        filter.included.push(name);
                    }
                },
                None => {
                    filter.invalid.push(to_owned_string(entry));
                },
            }
            proof {
                assert(string_views(filter.included@) =~= parsed_filter(es.take(i + 1)).included);
                assert(string_views(filter.excluded@) =~= parsed_filter(es.take(i + 1)).excluded);
                assert(string_views(filter.invalid@) =~= parsed_filter(es.take(i + 1)).invalid);
            }
            i = i + 1;
        }
        assert(string_views(entries@).take(entries@.len() as int) =~= string_views(entries@));
        filter
    }

    /// Whether the filter has no included and no excluded entries (and so
    /// matches every disk).
    pub fn is_empty(&self) -> (r: bool)
        ensures
            r == (self.view_filter().included.len() == 0 && self.view_filter().excluded.len() == 0),
    {
        self.included.len() == 0 && self.excluded.len() == 0
    }

    /// Whether a disk named `disk_name` passes the filter.
    pub fn matches(&self, disk_name: &str) -> (r: bool)
        ensures
            r == filter_matches(self.view_filter(), disk_name@),
    {
        if self.is_empty() {
            return true;
        }
        let normalized = normalize_drive_name(disk_name);
        if contains_str(&self.excluded, normalized.as_str()) {
            return false;
        }
        if self.included.len() == 0 {
            return true;
        }
        contains_str(&self.included, normalized.as_str())
    }

    /// The disks that pass the filter, in the caller's order. Drives the
    /// filter names that are not present add nothing.
    pub fn apply<'a>(&self, disks: &'a [DiskInfo]) -> (r: Vec<&'a DiskInfo>)
        ensures
            r@.len() == kept_disks(self.view_filter(), disks@).len(),
            forall|i: int| 0 <= i < r@.len() ==> *(#[trigger] r@[i]) == kept_disks(self.view_filter(), disks@)[i],
    {
        let mut out: Vec<&'a DiskInfo> = Vec::new();
        let mut i: usize = 0;
        while i < disks.len()
            invariant
                i <= disks.len(),
                out@.len() == kept_disks(self.view_filter(), disks@.take(i as int)).len(),
                forall|k: int| 0 <= k < out@.len() ==> *(#[trigger] out@[k]) == kept_disks(self.view_filter(), disks@.take(i as int))[k],
            decreases disks.len() - i,
        {
            proof {
                assert(disks@.take(i + 1).drop_last() =~= disks@.take(i as int));
            }
            let d = &disks[i];
            if self.matches(d.name.as_str()) {
                out.push(d);
            }
            i = i + 1;
        }
        assert(disks@.take(disks@.len() as int) =~= disks@);
        out
    }

    /// The entries that are not drive selectors, as written.
    pub fn invalid(&self) -> (r: &[String])
        ensures
            string_views(r@) == self.view_filter().invalid,
    {
        self.invalid.as_slice()
    }
}

impl Default for DisksFilter {
    fn default() -> (r: Self)
        ensures
            r.view_filter() == parsed_filter(Seq::empty()),
    {
        let r = DisksFilter { included: Vec::new(), excluded: Vec::new(), invalid: Vec::new() };
        assert(r.view_filter() =~= parsed_filter(Seq::empty()));
        r
    }
}

/// Index of the first disk named `name`.
pub open spec fn first_named(ds: Seq<DiskInfo>, name: Seq<char>) -> Option<int>
    decreases ds.len(),
{
    if ds.len() == 0 {
        None
    } else {
        match first_named(ds.drop_last(), name) {
            Some(i) => Some(i),
            None => if ds.last().name@ == name { Some(ds.len() - 1) } else { None },
        }
    }
}

impl DiskData {
    /// The first disk named `name`, for updating in place.
    pub fn get_mut(&mut self, name: &str) -> (r: Option<&mut DiskInfo>)
        ensures
            match first_named(old(self).disks@, name@) {
                Some(i) => r matches Some(d) && *d == old(self).disks@[i]
                    && final(self).disks@ == old(self).disks@.update(i, *final(d)),
                None => r is None && final(self).disks@ == old(self).disks@,
            },
    {
        let mut i: usize = 0;
        while i < self.disks.len()
            invariant
                i <= self.disks.len(),
                self.disks@ == old(self).disks@,
                first_named(self.disks@.take(i as int), name@) is None,
            decreases self.disks.len() - i,
        {
            proof {
                assert(self.disks@.take(i + 1).drop_last() =~= self.disks@.take(i as int));
            }
            if str_eq(self.disks[i].name.as_str(), name) {
                proof {
                    lemma_first_named_prefix(self.disks@, name@, i as int);
                }
                return Some(&mut self.disks[i]);
            }
            i = i + 1;
        }
        assert(self.disks@.take(self.disks@.len() as int) =~= self.disks@);
        None
    }
}

proof fn lemma_first_named_prefix(ds: Seq<DiskInfo>, name: Seq<char>, i: int)
    requires
        0 <= i < ds.len(),
        first_named(ds.take(i), name) is None,
        ds[i].name@ == name,
    ensures
        first_named(ds, name) == Some(i),
    decreases ds.len(),
{
    if i < ds.len() - 1 {
        assert(ds.drop_last().take(i) =~= ds.take(i));
        lemma_first_named_prefix(ds.drop_last(), name, i);
    } else {
        assert(ds.drop_last() =~= ds.take(i));
    }
}

} // verus!
