//! `Slot` — the canonical layout specification: a recursive
//! composition of vertical stacks, horizontal stacks (with per-child
//! width weights) and widget leaves, together with its textual DSL
//!
//! ```text
//! cpu
//! vstack(cpu, mem)
//! hstack(40:cpu, 60:proc)
//! vstack(cpu, hstack(40:vstack(mem, net, disk), 60:proc))
//! ```

use vstd::prelude::*;

use crate::domain::widget_kind::{widget_from_name, widget_name, WidgetKind};
use crate::text::{dec, digits_value, is_digit, lemma_dec_digits, push_dec, push_str, to_owned_string};

verus! {

/// A rectangular region that holds either a widget, a vertical stack
/// of slots, or a horizontal stack of weighted slots.
#[derive(Debug, PartialEq, Eq)]
pub enum Slot {
    /// A widget leaf.
    Widget(WidgetKind),
    /// Children stacked top-to-bottom, each spanning the full width.
    VStack(Vec<Slot>),
    /// Children laid out left-to-right with proportional widths.
    HStack(Vec<HStackChild>),
}

/// A child of an [`Slot::HStack`] carrying its relative width weight
/// (`1..=255`; the DSL and `new` never produce zero).
#[derive(Debug, PartialEq, Eq)]
pub struct HStackChild {
    pub slot: Slot,
    pub weight: u8,
}

/// The mathematical shape of a [`Slot`]: the same tree with sequences
/// in place of vectors.
pub enum SlotShape {
    Widget(WidgetKind),
    VStack(Seq<SlotShape>),
    HStack(Seq<(u8, SlotShape)>),
}

impl Slot {
    /// The shape of this slot tree.
    pub open spec fn shape(self) -> SlotShape
        decreases self,
    {
        match self {
            Slot::Widget(k) => SlotShape::Widget(k),
            Slot::VStack(cs) => SlotShape::VStack(shapes(cs@)),
            Slot::HStack(cs) => SlotShape::HStack(hshapes(cs@)),
        }
    }
}

/// Shapes of a sequence of slots, element by element.
pub open spec fn shapes(cs: Seq<Slot>) -> Seq<SlotShape>
    decreases cs,
{
    if cs.len() == 0 {
        Seq::empty()
    } else {
        shapes(cs.drop_last()).push(cs.last().shape())
    }
}

/// Shapes of a sequence of weighted children, element by element.
pub open spec fn hshapes(cs: Seq<HStackChild>) -> Seq<(u8, SlotShape)>
    decreases cs,
{
    if cs.len() == 0 {
        Seq::empty()
    } else {
        hshapes(cs.drop_last()).push((cs.last().weight, cs.last().slot.shape()))
    }
}

pub proof fn lemma_shapes_len(cs: Seq<Slot>)
    ensures
        shapes(cs).len() == cs.len(),
        forall|i: int| 0 <= i < cs.len() ==> #[trigger] shapes(cs)[i] == cs[i].shape(),
    decreases cs.len(),
{
    if cs.len() > 0 {
        lemma_shapes_len(cs.drop_last());
    }
}

pub proof fn lemma_hshapes_len(cs: Seq<HStackChild>)
    ensures
        hshapes(cs).len() == cs.len(),
        forall|i: int| 0 <= i < cs.len() ==> #[trigger] hshapes(cs)[i] == (cs[i].weight, cs[i].slot.shape()),
    decreases cs.len(),
{
    if cs.len() > 0 {
        lemma_hshapes_len(cs.drop_last());
    }
}

pub proof fn lemma_shapes_push(cs: Seq<Slot>, x: Slot)
    ensures
        shapes(cs.push(x)) == shapes(cs).push(x.shape()),
{
    assert(cs.push(x).drop_last() =~= cs);
}

pub proof fn lemma_hshapes_push(cs: Seq<HStackChild>, x: HStackChild)
    ensures
        hshapes(cs.push(x)) == hshapes(cs).push((x.weight, x.slot.shape())),
{
    assert(cs.push(x).drop_last() =~= cs);
}

impl Slot {
    /// A deep copy of this slot tree.
    pub fn duplicate(&self) -> (r: Slot)
        ensures
            r.shape() == self.shape(),
        decreases self,
    {
        match self {
            Slot::Widget(k) => Slot::Widget(*k),
            Slot::VStack(cs) => {
                let mut out: Vec<Slot> = Vec::new();
                let mut i: usize = 0;
                while i < cs.len()
                    invariant
                        i <= cs.len(),
                        out@.len() == i,
                        shapes(out@) == shapes(cs@.subrange(0, i as int)),
                        *self == Slot::VStack(*cs),
                    decreases cs.len() - i,
                {
                    proof {
                        assert(decreases_to!(*self => (*self)->VStack_0));
                        assert(decreases_to!(*cs => cs@));
                        assert(decreases_to!(cs@ => cs@[i as int]));
                    }
                    let c = cs[i].duplicate();
                    proof {
                        lemma_shapes_push(out@, c);
                        lemma_shapes_push(cs@.subrange(0, i as int), cs@[i as int]);
                        assert(cs@.subrange(0, i as int).push(cs@[i as int]) =~= cs@.subrange(0, i + 1));
                    }
                    out.push(c);
                    i = i + 1;
                }
                assert(cs@.subrange(0, cs.len() as int) =~= cs@);
                Slot::VStack(out)
            },
            Slot::HStack(cs) => {
                let mut out: Vec<HStackChild> = Vec::new();
                let mut i: usize = 0;
                while i < cs.len()
                    invariant
                        i <= cs.len(),
                        out@.len() == i,
                        hshapes(out@) == hshapes(cs@.subrange(0, i as int)),
                        *self == Slot::HStack(*cs),
                    decreases cs.len() - i,
                {
                    proof {
                        assert(decreases_to!(*self => (*self)->HStack_0));
                        assert(decreases_to!(*cs => cs@));
                        assert(decreases_to!(cs@ => cs@[i as int]));
                        assert(decreases_to!(cs@[i as int] => cs@[i as int].slot));
                    }
                    let c = HStackChild { slot: cs[i].slot.duplicate(), weight: cs[i].weight };
                    proof {
                        lemma_hshapes_push(out@, c);
                        lemma_hshapes_push(cs@.subrange(0, i as int), cs@[i as int]);
                        assert(cs@.subrange(0, i as int).push(cs@[i as int]) =~= cs@.subrange(0, i + 1));
                    }
                    out.push(c);
                    i = i + 1;
                }
                assert(cs@.subrange(0, cs.len() as int) =~= cs@);
                Slot::HStack(out)
            },
        }
    }
}

impl Clone for Slot {
    fn clone(&self) -> Self {
        self.duplicate()
    }
}

impl Clone for HStackChild {
    fn clone(&self) -> Self {
        HStackChild { slot: self.slot.duplicate(), weight: self.weight }
    }
}

// ---------------------------------------------------------------------------
// Canonical text
// ---------------------------------------------------------------------------

pub open spec fn vstack_kw() -> Seq<char> { seq!['v', 's', 't', 'a', 'c', 'k'] }

pub open spec fn hstack_kw() -> Seq<char> { seq!['h', 's', 't', 'a', 'c', 'k'] }

pub open spec fn sep() -> Seq<char> { seq![',', ' '] }

/// Canonical DSL text of a shape: widget name, `vstack(a, b)`, or
/// `hstack(40:a, 60:b)`.
pub open spec fn shape_text(s: SlotShape) -> Seq<char>
    decreases s, 2nat,
{
    match s {
        SlotShape::Widget(k) => widget_name(k),
        SlotShape::VStack(cs) => vstack_kw() + seq!['('] + vtext(cs, 0) + seq![')'],
        SlotShape::HStack(cs) => hstack_kw() + seq!['('] + htext(cs, 0) + seq![')'],
    }
}

/// Text of the children `cs[i..]` of a vertical stack, separated by `", "`.
pub open spec fn vtext(cs: Seq<SlotShape>, i: nat) -> Seq<char>
    decreases cs, (cs.len() - i) as nat,
{
    if i >= cs.len() {
        Seq::empty()
    } else {
        (if i == 0 { Seq::empty() } else { sep() }) + shape_text(cs[i as int]) + vtext(cs, i + 1)
    }
}

/// Text of the children `cs[i..]` of a horizontal stack, each as
/// `weight:slot`, separated by `", "`.
pub open spec fn htext(cs: Seq<(u8, SlotShape)>, i: nat) -> Seq<char>
    decreases cs, (cs.len() - i) as nat,
{
    if i >= cs.len() {
        Seq::empty()
    } else {
        (if i == 0 { Seq::empty() } else { sep() }) + dec(cs[i as int].0 as nat) + seq![':']
            + shape_text(cs[i as int].1) + htext(cs, i + 1)
    }
}


pub proof fn lemma_vtext_step(cs: Seq<SlotShape>, i: nat)
    requires
        i < cs.len(),
    ensures
        vtext(cs, i) == (if i == 0 { Seq::empty() } else { sep() }) + shape_text(cs[i as int]) + vtext(cs, i + 1),
{
}

pub proof fn lemma_htext_step(cs: Seq<(u8, SlotShape)>, i: nat)
    requires
        i < cs.len(),
    ensures
        htext(cs, i) == (if i == 0 { Seq::empty() } else { sep() }) + dec(cs[i as int].0 as nat) + seq![':']
            + shape_text(cs[i as int].1) + htext(cs, i + 1),
{
}

impl Slot {
    /// Append the canonical DSL text of this slot to `out`.
    pub fn write_to(&self, out: &mut String)
        ensures
            final(out)@ == old(out)@ + shape_text(self.shape()),
        decreases self,
    {
        proof {
            reveal_strlit("vstack(");
            reveal_strlit("hstack(");
            reveal_strlit(", ");
            reveal_strlit(")");
            reveal_strlit(":");
            assert(", "@ =~= sep());
            assert(":"@ =~= seq![':']);
            assert("vstack("@ =~= vstack_kw() + seq!['(']);
            assert("hstack("@ =~= hstack_kw() + seq!['(']);
            assert(")"@ =~= seq![')']);
        }
        match self {
            Slot::Widget(k) => {
                push_str(out, k.name());
            },
            Slot::VStack(cs) => {
                let ghost sh = shapes(cs@);
                proof {
                    lemma_shapes_len(cs@);
                }
                push_str(out, "vstack(");
                let ghost start = out@;
                let mut i: usize = 0;
                while i < cs.len()
                    invariant
                        i <= cs.len(),
                        sh == shapes(cs@),
                        sh.len() == cs@.len(),
                        forall|j: int| 0 <= j < cs@.len() ==> #[trigger] sh[j] == cs@[j].shape(),
                        out@ + vtext(sh, i as nat) == start + vtext(sh, 0),
                        *self == Slot::VStack(*cs),
                        ", "@ == sep(),
                    decreases cs.len() - i,
                {
                    proof {
                        assert(decreases_to!(*self => (*self)->VStack_0));
                        assert(decreases_to!(*cs => cs@));
                        assert(decreases_to!(cs@ => cs@[i as int]));
                        lemma_vtext_step(sh, i as nat);
                    }
                    let ghost before = out@;
                    if i > 0 {
                        push_str(out, ", ");
                    }
                    cs[i].write_to(out);
                    proof {
                        if i == 0 {
                            assert(out@ =~= before + Seq::<char>::empty() + shape_text(sh[i as int]));
                        } else {
                            assert(out@ =~= before + sep() + shape_text(sh[i as int]));
                        }
                        assert(out@ + vtext(sh, (i + 1) as nat) =~= before + vtext(sh, i as nat));
                    }
                    i = i + 1;
                }
                push_str(out, ")");
                proof {
                    assert(vtext(sh, cs.len() as nat) =~= Seq::<char>::empty());
                    assert(out@ =~= old(out)@ + shape_text(self.shape()));
                }
            },
            Slot::HStack(cs) => {
                let ghost sh = hshapes(cs@);
                proof {
                    lemma_hshapes_len(cs@);
                }
                push_str(out, "hstack(");
                let ghost start = out@;
                let mut i: usize = 0;
                while i < cs.len()
                    invariant
                        i <= cs.len(),
                        sh == hshapes(cs@),
                        sh.len() == cs@.len(),
                        forall|j: int| 0 <= j < cs@.len() ==> #[trigger] sh[j] == (cs@[j].weight, cs@[j].slot.shape()),
                        out@ + htext(sh, i as nat) == start + htext(sh, 0),
                        *self == Slot::HStack(*cs),
                        ", "@ == sep(),
                        ":"@ == seq![':'],
                    decreases cs.len() - i,
                {
                    proof {
                        assert(decreases_to!(*self => (*self)->HStack_0));
                        assert(decreases_to!(*cs => cs@));
                        assert(decreases_to!(cs@ => cs@[i as int]));
                        assert(decreases_to!(cs@[i as int] => cs@[i as int].slot));
                        lemma_htext_step(sh, i as nat);
                    }
                    let ghost before = out@;
                    if i > 0 {
                        push_str(out, ", ");
                    }
                    push_dec(out, cs[i].weight as u64);
                    push_str(out, ":");
                    cs[i].slot.write_to(out);
                    proof {
                        if i == 0 {
                            assert(out@ =~= before + Seq::<char>::empty() + dec(sh[i as int].0 as nat)
                                + seq![':'] + shape_text(sh[i as int].1));
                        } else {
                            assert(out@ =~= before + sep() + dec(sh[i as int].0 as nat)
                                + seq![':'] + shape_text(sh[i as int].1));
                        }
                        assert(out@ + htext(sh, (i + 1) as nat) =~= before + htext(sh, i as nat));
                    }
                    i = i + 1;
                }
                push_str(out, ")");
                proof {
                    assert(htext(sh, cs.len() as nat) =~= Seq::<char>::empty());
                    assert(out@ =~= old(out)@ + shape_text(self.shape()));
                }
            },
        }
    }

    /// The canonical DSL text of this slot (`vstack(cpu, hstack(40:mem, 60:proc))`).
    pub fn to_string(&self) -> (r: String)
        ensures
            r@ == shape_text(self.shape()),
    {
        let mut out = String::new();
        self.write_to(&mut out);
        proof {
            assert(out@ =~= shape_text(self.shape()));
        }
        out
    }
}


// ---------------------------------------------------------------------------
// Errors
// ---------------------------------------------------------------------------

/// Error returned by [`Slot::parse`]. Positions are character offsets
/// into the input.
#[derive(Debug, Clone, PartialEq, Eq)]
pub enum SlotParseError {
    /// The input is empty or only whitespace.
    Empty,
    /// Expected a widget name or `vstack` / `hstack` at `pos`.
    ExpectedSlot { pos: usize },
    /// Expected the literal character `expected` at `pos`.
    Expected { expected: char, pos: usize },
    /// Expected a weight number at `pos`.
    ExpectedNumber { pos: usize },
    /// A weight was zero or did not fit in `1..=255`.
    InvalidWeight { text: String },
    /// An identifier named no widget.
    UnknownWidget { name: String },
    /// Input remained after a complete slot.
    TrailingInput { pos: usize },
    /// The same widget kind appears more than once.
    DuplicateWidget(WidgetKind),
}

/// The mathematical value of a [`SlotParseError`].
pub enum ErrShape {
    Empty,
    ExpectedSlot(int),
    Expected(char, int),
    ExpectedNumber(int),
    InvalidWeight(Seq<char>),
    UnknownWidget(Seq<char>),
    TrailingInput(int),
    DuplicateWidget(WidgetKind),
}

impl View for SlotParseError {
    type V = ErrShape;

    open spec fn view(&self) -> ErrShape {
        match *self {
            SlotParseError::Empty => ErrShape::Empty,
            SlotParseError::ExpectedSlot { pos } => ErrShape::ExpectedSlot(pos as int),
            SlotParseError::Expected { expected, pos } => ErrShape::Expected(expected, pos as int),
            SlotParseError::ExpectedNumber { pos } => ErrShape::ExpectedNumber(pos as int),
            SlotParseError::InvalidWeight { text } => ErrShape::InvalidWeight(text@),
            SlotParseError::UnknownWidget { name } => ErrShape::UnknownWidget(name@),
            SlotParseError::TrailingInput { pos } => ErrShape::TrailingInput(pos as int),
            SlotParseError::DuplicateWidget(k) => ErrShape::DuplicateWidget(k),
        }
    }
}

// ---------------------------------------------------------------------------
// Grammar
// ---------------------------------------------------------------------------

/// ASCII whitespace, as skipped between tokens.
pub open spec fn is_ws(c: char) -> bool {
    c == ' ' || c == '\t' || c == '\n' || c == '\x0C' || c == '\r'
}

/// Unicode `White_Space`, as trimmed before deciding the input is empty.
pub open spec fn is_unicode_ws(c: char) -> bool {
    ('\t' <= c && c <= '\r') || c == ' ' || c == '\u{85}' || c == '\u{a0}' || c == '\u{1680}'
        || ('\u{2000}' <= c && c <= '\u{200a}') || c == '\u{2028}' || c == '\u{2029}'
        || c == '\u{202f}' || c == '\u{205f}' || c == '\u{3000}'
}

/// Characters of an identifier: ASCII lowercase letters and digits.
pub open spec fn is_ident_char(c: char) -> bool {
    ('a' <= c && c <= 'z') || ('0' <= c && c <= '9')
}

/// First position at or after `pos` that is not ASCII whitespace.
pub open spec fn skip_ws(c: Seq<char>, pos: int) -> int
    decreases c.len() - pos,
{
    if 0 <= pos < c.len() && is_ws(c[pos]) { skip_ws(c, pos + 1) } else { pos }
}

/// End of the run of identifier characters starting at `pos`.
pub open spec fn ident_end(c: Seq<char>, pos: int) -> int
    decreases c.len() - pos,
{
    if 0 <= pos < c.len() && is_ident_char(c[pos]) { ident_end(c, pos + 1) } else { pos }
}

/// End of the run of digits starting at `pos`.
pub open spec fn digits_end(c: Seq<char>, pos: int) -> int
    decreases c.len() - pos,
{
    if 0 <= pos < c.len() && is_digit(c[pos]) { digits_end(c, pos + 1) } else { pos }
}

/// Result of parsing a slot starting at a position: the shape and the
/// position after it, or an error.
pub type SlotRes = Result<(SlotShape, int), ErrShape>;

/// Parse one slot at `pos` (after optional whitespace).
pub open spec fn p_slot(c: Seq<char>, pos: int) -> SlotRes
    decreases c.len() - pos, 0nat,
{
    if !(0 <= pos <= c.len()) {
        Err(ErrShape::Empty)
    } else {
        let s = skip_ws(c, pos);
        let e = ident_end(c, s);
        if !(pos <= s <= e <= c.len()) {
            Err(ErrShape::Empty)
        } else if e == s {
            Err(ErrShape::ExpectedSlot(s))
        } else {
            let id = c.subrange(s, e);
            let q = skip_ws(c, e);
            if id == vstack_kw() || id == hstack_kw() {
                if !(e <= q <= c.len()) {
                    Err(ErrShape::Empty)
                } else if q < c.len() && c[q] == '(' {
                    if id == vstack_kw() {
                        match p_vlist(c, q + 1) {
                            Ok((cs, p3)) => {
                                let r = skip_ws(c, p3);
                                if 0 <= r < c.len() && c[r] == ')' {
                                    Ok((SlotShape::VStack(cs), r + 1))
                                } else {
                                    Err(ErrShape::Expected(')', r))
                                }
                            },
                            Err(x) => Err(x),
                        }
                    } else {
                        match p_hlist(c, q + 1) {
                            Ok((cs, p3)) => {
                                let r = skip_ws(c, p3);
                                if 0 <= r < c.len() && c[r] == ')' {
                                    Ok((SlotShape::HStack(cs), r + 1))
                                } else {
                                    Err(ErrShape::Expected(')', r))
                                }
                            },
                            Err(x) => Err(x),
                        }
                    }
                } else {
                    Err(ErrShape::Expected('(', q))
                }
            } else {
                match widget_from_name(id) {
                    Some(k) => Ok((SlotShape::Widget(k), e)),
                    None => Err(ErrShape::UnknownWidget(id)),
                }
            }
        }
    }
}

/// Parse the comma-separated children of a vertical stack at `pos`.
pub open spec fn p_vlist(c: Seq<char>, pos: int) -> Result<(Seq<SlotShape>, int), ErrShape>
    decreases c.len() - pos, 1nat,
{
    if !(0 <= pos <= c.len()) {
        Err(ErrShape::Empty)
    } else {
        match p_slot(c, pos) {
            Ok((ch, p2)) => if pos < p2 <= c.len() { p_vmore(c, p2, seq![ch]) } else { Err(ErrShape::Empty) },
            Err(x) => Err(x),
        }
    }
}

/// Parse further `, slot` items of a vertical stack after `acc`.
pub open spec fn p_vmore(c: Seq<char>, pos: int, acc: Seq<SlotShape>) -> Result<(Seq<SlotShape>, int), ErrShape>
    decreases c.len() - pos, 1nat,
{
    if !(0 <= pos <= c.len()) {
        Err(ErrShape::Empty)
    } else {
        let p = skip_ws(c, pos);
        if !(pos <= p <= c.len()) {
            Err(ErrShape::Empty)
        } else if p < c.len() && c[p] == ',' {
            match p_slot(c, p + 1) {
                Ok((ch, p2)) => if p + 1 < p2 <= c.len() { p_vmore(c, p2, acc.push(ch)) } else { Err(ErrShape::Empty) },
                Err(x) => Err(x),
            }
        } else {
            Ok((acc, p))
        }
    }
}

/// Parse one `weight:slot` child of a horizontal stack at `pos`.
pub open spec fn p_hchild(c: Seq<char>, pos: int) -> Result<((u8, SlotShape), int), ErrShape>
    decreases c.len() - pos, 1nat,
{
    if !(0 <= pos <= c.len()) {
        Err(ErrShape::Empty)
    } else {
        let s = skip_ws(c, pos);
        let e = digits_end(c, s);
        if !(pos <= s <= e <= c.len()) {
            Err(ErrShape::Empty)
        } else if e == s {
            Err(ErrShape::ExpectedNumber(s))
        } else {
            let text = c.subrange(s, e);
            let v = digits_value(text);
            if v > 255 {
                Err(ErrShape::InvalidWeight(text))
            } else if v == 0 {
                Err(ErrShape::InvalidWeight(seq!['0']))
            } else {
                let q = skip_ws(c, e);
                if !(e <= q <= c.len()) {
                    Err(ErrShape::Empty)
                } else if q < c.len() && c[q] == ':' {
                    match p_slot(c, q + 1) {
                        Ok((sl, p2)) => Ok(((v as u8, sl), p2)),
                        Err(x) => Err(x),
                    }
                } else {
                    Err(ErrShape::Expected(':', q))
                }
            }
        }
    }
}

/// Parse the comma-separated children of a horizontal stack at `pos`.
pub open spec fn p_hlist(c: Seq<char>, pos: int) -> Result<(Seq<(u8, SlotShape)>, int), ErrShape>
    decreases c.len() - pos, 2nat,
{
    if !(0 <= pos <= c.len()) {
        Err(ErrShape::Empty)
    } else {
        match p_hchild(c, pos) {
            Ok((ch, p2)) => if pos < p2 <= c.len() { p_hmore(c, p2, seq![ch]) } else { Err(ErrShape::Empty) },
            Err(x) => Err(x),
        }
    }
}

/// Parse further `, weight:slot` items of a horizontal stack after `acc`.
pub open spec fn p_hmore(c: Seq<char>, pos: int, acc: Seq<(u8, SlotShape)>) -> Result<(Seq<(u8, SlotShape)>, int), ErrShape>
    decreases c.len() - pos, 2nat,
{
    if !(0 <= pos <= c.len()) {
        Err(ErrShape::Empty)
    } else {
        let p = skip_ws(c, pos);
        if !(pos <= p <= c.len()) {
            Err(ErrShape::Empty)
        } else if p < c.len() && c[p] == ',' {
            match p_hchild(c, p + 1) {
                Ok((ch, p2)) => if p + 1 < p2 <= c.len() { p_hmore(c, p2, acc.push(ch)) } else { Err(ErrShape::Empty) },
                Err(x) => Err(x),
            }
        } else {
            Ok((acc, p))
        }
    }
}


/// Leaves of a shape, left to right.
pub open spec fn leaves(s: SlotShape) -> Seq<WidgetKind>
    decreases s, 2nat,
{
    match s {
        SlotShape::Widget(k) => seq![k],
        SlotShape::VStack(cs) => vleaves(cs, 0),
        SlotShape::HStack(cs) => hleaves(cs, 0),
    }
}

pub open spec fn vleaves(cs: Seq<SlotShape>, i: nat) -> Seq<WidgetKind>
    decreases cs, (cs.len() - i) as nat,
{
    if i >= cs.len() { Seq::empty() } else { leaves(cs[i as int]) + vleaves(cs, i + 1) }
}

pub open spec fn hleaves(cs: Seq<(u8, SlotShape)>, i: nat) -> Seq<WidgetKind>
    decreases cs, (cs.len() - i) as nat,
{
    if i >= cs.len() { Seq::empty() } else { leaves(cs[i as int].1) + hleaves(cs, i + 1) }
}

/// The first widget (scanning `r` from index `i`) that already occurred
/// earlier in `r`.
pub open spec fn dup_scan(r: Seq<WidgetKind>, i: nat) -> Option<WidgetKind>
    decreases r.len() - i,
{
    if i >= r.len() {
        None
    } else if r.subrange(0, i as int).contains(r[i as int]) {
        Some(r[i as int])
    } else {
        dup_scan(r, i + 1)
    }
}

/// The duplicate that validation reports: the tree is walked with a
/// stack, children pushed left to right, so leaves are visited right to
/// left and the first revisited kind is reported.
pub open spec fn first_duplicate(s: SlotShape) -> Option<WidgetKind> {
    dup_scan(leaves(s).reverse(), 0)
}

/// Meaning of the DSL text `c`: the parsed shape, or the error reported.
pub open spec fn spec_parse(c: Seq<char>) -> Result<SlotShape, ErrShape> {
    if forall|i: int| 0 <= i < c.len() ==> is_unicode_ws(#[trigger] c[i]) {
        Err(ErrShape::Empty)
    } else {
        match p_slot(c, skip_ws(c, 0)) {
            Ok((sh, p)) => {
                let q = skip_ws(c, p);
                if q != c.len() {
                    Err(ErrShape::TrailingInput(q))
                } else {
                    match first_duplicate(sh) {
                        Some(k) => Err(ErrShape::DuplicateWidget(k)),
                        None => Ok(sh),
                    }
                }
            },
            Err(x) => Err(x),
        }
    }
}

// ---------------------------------------------------------------------------
// Executable parser
// ---------------------------------------------------------------------------

pub open spec fn slot_res(r: Result<(Slot, usize), SlotParseError>) -> SlotRes {
    match r {
        Ok((s, p)) => Ok((s.shape(), p as int)),
        Err(e) => Err(e@),
    }
}

pub open spec fn vlist_res(r: Result<(Vec<Slot>, usize), SlotParseError>) -> Result<(Seq<SlotShape>, int), ErrShape> {
    match r {
        Ok((v, p)) => Ok((shapes(v@), p as int)),
        Err(e) => Err(e@),
    }
}

pub open spec fn hchild_res(r: Result<(HStackChild, usize), SlotParseError>) -> Result<((u8, SlotShape), int), ErrShape> {
    match r {
        Ok((h, p)) => Ok(((h.weight, h.slot.shape()), p as int)),
        Err(e) => Err(e@),
    }
}

pub open spec fn hlist_res(r: Result<(Vec<HStackChild>, usize), SlotParseError>) -> Result<(Seq<(u8, SlotShape)>, int), ErrShape> {
    match r {
        Ok((v, p)) => Ok((hshapes(v@), p as int)),
        Err(e) => Err(e@),
    }
}

fn x_skip_ws(c: &Vec<char>, pos: usize) -> (r: usize)
    requires
        pos <= c.len(),
    ensures
        r as int == skip_ws(c@, pos as int),
        pos <= r <= c.len(),
{
    let mut i = pos;
    while i < c.len() && (c[i] == ' ' || c[i] == '\t' || c[i] == '\n' || c[i] == '\x0C' || c[i] == '\r')
        invariant
            pos <= i <= c.len(),
            skip_ws(c@, i as int) == skip_ws(c@, pos as int),
        decreases c.len() - i,
    {
        i = i + 1;
    }
    i
}

fn x_ident_end(c: &Vec<char>, pos: usize) -> (r: usize)
    requires
        pos <= c.len(),
    ensures
        r as int == ident_end(c@, pos as int),
        pos <= r <= c.len(),
{
    let mut i = pos;
    while i < c.len() && (('a' <= c[i] && c[i] <= 'z') || ('0' <= c[i] && c[i] <= '9'))
        invariant
            pos <= i <= c.len(),
            ident_end(c@, i as int) == ident_end(c@, pos as int),
        decreases c.len() - i,
    {
        i = i + 1;
    }
    i
}

fn x_digits_end(c: &Vec<char>, pos: usize) -> (r: usize)
    requires
        pos <= c.len(),
    ensures
        r as int == digits_end(c@, pos as int),
        pos <= r <= c.len(),
{
    let mut i = pos;
    while i < c.len() && ('0' <= c[i] && c[i] <= '9')
        invariant
            pos <= i <= c.len(),
            digits_end(c@, i as int) == digits_end(c@, pos as int),
        decreases c.len() - i,
    {
        i = i + 1;
    }
    i
}

proof fn lemma_digits_run(c: Seq<char>, s: int, e: int)
    requires
        0 <= s <= e <= c.len(),
        e == digits_end(c, s),
    ensures
        forall|i: int| s <= i < e ==> is_digit(#[trigger] c[i]),
    decreases e - s,
{
    if s < e {
        lemma_digits_run(c, s + 1, e);
    }
}

/// `min(value of the digits c[s..e], 256)`.
fn x_weight_value(c: &Vec<char>, s: usize, e: usize) -> (r: u32)
    requires
        s <= e <= c.len(),
        forall|i: int| s <= i < e ==> is_digit(#[trigger] c@[i]),
    ensures
        r as nat == if digits_value(c@.subrange(s as int, e as int)) > 255 { 256 } else {
            digits_value(c@.subrange(s as int, e as int))
        },
{
    let mut v: u32 = 0;
    let mut i = s;
    while i < e
        invariant
            s <= i <= e <= c.len(),
            forall|j: int| s <= j < e ==> is_digit(#[trigger] c@[j]),
            v as nat == if digits_value(c@.subrange(s as int, i as int)) > 255 { 256 } else {
                digits_value(c@.subrange(s as int, i as int))
            },
        decreases e - i,
    {
        let ghost before = c@.subrange(s as int, i as int);
        let d = (c[i] as u32) - ('0' as u32);
        proof {
            assert(is_digit(c@[i as int]));
            assert(c@.subrange(s as int, (i + 1) as int).drop_last() =~= before);
            assert(c@.subrange(s as int, (i + 1) as int).last() == c@[i as int]);
        }
        if v >= 256 {
            v = 256;
        } else {
            v = v * 10 + d;
            if v > 255 {
                v = 256;
            }
        }
        i = i + 1;
    }
    v
}

fn sub_chars(c: &Vec<char>, s: usize, e: usize) -> (r: Vec<char>)
    requires
        s <= e <= c.len(),
    ensures
        r@ == c@.subrange(s as int, e as int),
{
    let mut r: Vec<char> = Vec::new();
    let mut i = s;
    while i < e
        invariant
            s <= i <= e <= c.len(),
            r@ == c@.subrange(s as int, i as int),
        decreases e - i,
    {
        r.push(c[i]);
        i = i + 1;
        assert(r@ =~= c@.subrange(s as int, i as int));
    }
    r
}

fn range_is(c: &Vec<char>, s: usize, e: usize, lit: &str) -> (r: bool)
    requires
        s <= e <= c.len(),
    ensures
        r == (c@.subrange(s as int, e as int) == lit@),
{
    let v = sub_chars(c, s, e);
    crate::text::chars_eq_str(&v, lit)
}

fn x_slot(c: &Vec<char>, pos: usize) -> (r: Result<(Slot, usize), SlotParseError>)
    requires
        pos <= c.len(),
    ensures
        slot_res(r) == p_slot(c@, pos as int),
        r matches Ok((_, p)) ==> pos < p <= c.len(),
    decreases c@.len() - pos, 0nat,
{
    proof {
        reveal_strlit("vstack");
        reveal_strlit("hstack");
        assert("vstack"@ =~= vstack_kw());
        assert("hstack"@ =~= hstack_kw());
    }
    let s = x_skip_ws(c, pos);
    let e = x_ident_end(c, s);
    if e == s {
        return Err(SlotParseError::ExpectedSlot { pos: s });
    }
    let is_v = range_is(c, s, e, "vstack");
    let is_h = range_is(c, s, e, "hstack");
    if is_v || is_h {
        let q = x_skip_ws(c, e);
        if q < c.len() && c[q] == '(' {
            if is_v {
                match x_vlist(c, q + 1) {
                    Ok((cs, p3)) => {
                        let r = x_skip_ws(c, p3);
                        if r < c.len() && c[r] == ')' {
                            Ok((Slot::VStack(cs), r + 1))
                        } else {
                            Err(SlotParseError::Expected { expected: ')', pos: r })
                        }
                    },
                    Err(x) => Err(x),
                }
            } else {
                match x_hlist(c, q + 1) {
                    Ok((cs, p3)) => {
                        let r = x_skip_ws(c, p3);
                        if r < c.len() && c[r] == ')' {
                            Ok((Slot::HStack(cs), r + 1))
                        } else {
                            Err(SlotParseError::Expected { expected: ')', pos: r })
                        }
                    },
                    Err(x) => Err(x),
                }
            }
        } else {
            Err(SlotParseError::Expected { expected: '(', pos: q })
        }
    } else {
        let id = sub_chars(c, s, e);
        match WidgetKind::from_chars(&id) {
            Some(k) => Ok((Slot::Widget(k), e)),
            None => Err(SlotParseError::UnknownWidget { name: crate::text::string_from_chars(&id) }),
        }
    }
}

fn x_vlist(c: &Vec<char>, pos: usize) -> (r: Result<(Vec<Slot>, usize), SlotParseError>)
    requires
        pos <= c.len(),
    ensures
        vlist_res(r) == p_vlist(c@, pos as int),
        r matches Ok((_, p)) ==> pos < p <= c.len(),
    decreases c@.len() - pos, 1nat,
{
    match x_slot(c, pos) {
        Ok((ch, p2)) => {
            let mut acc: Vec<Slot> = Vec::new();
            proof {
                lemma_shapes_push(acc@, ch);
                assert(acc@ =~= Seq::<Slot>::empty());
                assert(shapes(acc@.push(ch)) =~= seq![ch.shape()]);
            }
            acc.push(ch);
            x_vmore(c, p2, acc)
        },
        Err(x) => Err(x),
    }
}

fn x_vmore(c: &Vec<char>, pos: usize, acc: Vec<Slot>) -> (r: Result<(Vec<Slot>, usize), SlotParseError>)
    requires
        pos <= c.len(),
    ensures
        vlist_res(r) == p_vmore(c@, pos as int, shapes(acc@)),
        r matches Ok((_, p)) ==> pos <= p <= c.len(),
    decreases c@.len() - pos, 1nat,
{
    let p = x_skip_ws(c, pos);
    if p < c.len() && c[p] == ',' {
        match x_slot(c, p + 1) {
            Ok((ch, p2)) => {
                let mut acc = acc;
                proof {
                    lemma_shapes_push(acc@, ch);
                }
                acc.push(ch);
                x_vmore(c, p2, acc)
            },
            Err(x) => Err(x),
        }
    } else {
        Ok((acc, p))
    }
}

fn x_hchild(c: &Vec<char>, pos: usize) -> (r: Result<(HStackChild, usize), SlotParseError>)
    requires
        pos <= c.len(),
    ensures
        hchild_res(r) == p_hchild(c@, pos as int),
        r matches Ok((_, p)) ==> pos < p <= c.len(),
    decreases c@.len() - pos, 1nat,
{
    let s = x_skip_ws(c, pos);
    let e = x_digits_end(c, s);
    if e == s {
        return Err(SlotParseError::ExpectedNumber { pos: s });
    }
    proof {
        lemma_digits_run(c@, s as int, e as int);
    }
    let v = x_weight_value(c, s, e);
    if v > 255 {
        let text = sub_chars(c, s, e);
        return Err(SlotParseError::InvalidWeight { text: crate::text::string_from_chars(&text) });
    }
    if v == 0 {
        proof {
            reveal_strlit("0");
            assert("0"@ =~= seq!['0']);
        }
        return Err(SlotParseError::InvalidWeight { text: to_owned_string("0") });
    }
    let q = x_skip_ws(c, e);
    if q < c.len() && c[q] == ':' {
        match x_slot(c, q + 1) {
            Ok((sl, p2)) => Ok((HStackChild { slot: sl, weight: v as u8 }, p2)),
            Err(x) => Err(x),
        }
    } else {
        Err(SlotParseError::Expected { expected: ':', pos: q })
    }
}

fn x_hlist(c: &Vec<char>, pos: usize) -> (r: Result<(Vec<HStackChild>, usize), SlotParseError>)
    requires
        pos <= c.len(),
    ensures
        hlist_res(r) == p_hlist(c@, pos as int),
        r matches Ok((_, p)) ==> pos < p <= c.len(),
    decreases c@.len() - pos, 2nat,
{
    match x_hchild(c, pos) {
        Ok((ch, p2)) => {
            let mut acc: Vec<HStackChild> = Vec::new();
            proof {
                lemma_hshapes_push(acc@, ch);
                assert(acc@ =~= Seq::<HStackChild>::empty());
                assert(hshapes(acc@.push(ch)) =~= seq![(ch.weight, ch.slot.shape())]);
            }
            acc.push(ch);
            x_hmore(c, p2, acc)
        },
        Err(x) => Err(x),
    }
}

fn x_hmore(c: &Vec<char>, pos: usize, acc: Vec<HStackChild>) -> (r: Result<(Vec<HStackChild>, usize), SlotParseError>)
    requires
        pos <= c.len(),
    ensures
        hlist_res(r) == p_hmore(c@, pos as int, hshapes(acc@)),
        r matches Ok((_, p)) ==> pos <= p <= c.len(),
    decreases c@.len() - pos, 2nat,
{
    let p = x_skip_ws(c, pos);
    if p < c.len() && c[p] == ',' {
        match x_hchild(c, p + 1) {
            Ok((ch, p2)) => {
                let mut acc = acc;
                proof {
                    lemma_hshapes_push(acc@, ch);
                }
                acc.push(ch);
                x_hmore(c, p2, acc)
            },
            Err(x) => Err(x),
        }
    } else {
        Ok((acc, p))
    }
}


pub proof fn lemma_vleaves_step(cs: Seq<SlotShape>, i: nat)
    requires
        i < cs.len(),
    ensures
        vleaves(cs, i) == leaves(cs[i as int]) + vleaves(cs, i + 1),
{
}

pub proof fn lemma_hleaves_step(cs: Seq<(u8, SlotShape)>, i: nat)
    requires
        i < cs.len(),
    ensures
        hleaves(cs, i) == leaves(cs[i as int].1) + hleaves(cs, i + 1),
{
}

fn x_is_unicode_ws(ch: char) -> (r: bool)
    ensures
        r == is_unicode_ws(ch),
{
    ('\t' <= ch && ch <= '\r') || ch == ' ' || ch == '\u{85}' || ch == '\u{a0}' || ch == '\u{1680}'
        || ('\u{2000}' <= ch && ch <= '\u{200a}') || ch == '\u{2028}' || ch == '\u{2029}'
        || ch == '\u{202f}' || ch == '\u{205f}' || ch == '\u{3000}'
}

fn x_all_unicode_ws(c: &Vec<char>) -> (r: bool)
    ensures
        r == forall|i: int| 0 <= i < c@.len() ==> is_unicode_ws(#[trigger] c@[i]),
{
    let mut i: usize = 0;
    while i < c.len()
        invariant
            i <= c.len(),
            forall|j: int| 0 <= j < i ==> is_unicode_ws(#[trigger] c@[j]),
        decreases c.len() - i,
    {
        if !x_is_unicode_ws(c[i]) {
            return false;
        }
        i = i + 1;
    }
    true
}

impl HStackChild {
    /// A child with the given (non-zero) width weight.
    pub fn new(slot: Slot, weight: u8) -> (r: HStackChild)
        requires
            weight > 0,
        ensures
            r.slot == slot,
            r.weight == weight,
    {
        HStackChild { slot, weight }
    }
}

impl Slot {
    /// Append the leaves of this tree, left to right, to `out`.
    pub fn collect_leaves(&self, out: &mut Vec<WidgetKind>)
        ensures
            final(out)@ == old(out)@ + leaves(self.shape()),
        decreases self,
    {
        match self {
            Slot::Widget(k) => {
                out.push(*k);
            },
            Slot::VStack(cs) => {
                let ghost sh = shapes(cs@);
                proof {
                    lemma_shapes_len(cs@);
                }
                let ghost start = out@;
                let mut i: usize = 0;
                while i < cs.len()
                    invariant
                        i <= cs.len(),
                        sh == shapes(cs@),
                        sh.len() == cs@.len(),
                        forall|j: int| 0 <= j < cs@.len() ==> #[trigger] sh[j] == cs@[j].shape(),
                        out@ + vleaves(sh, i as nat) == start + vleaves(sh, 0),
                        *self == Slot::VStack(*cs),
                    decreases cs.len() - i,
                {
                    proof {
                        assert(decreases_to!(*self => (*self)->VStack_0));
                        assert(decreases_to!(*cs => cs@));
                        assert(decreases_to!(cs@ => cs@[i as int]));
                        lemma_vleaves_step(sh, i as nat);
                    }
                    let ghost before = out@;
                    cs[i].collect_leaves(out);
                    proof {
                        assert(out@ + vleaves(sh, (i + 1) as nat) =~= before + vleaves(sh, i as nat));
                    }
                    i = i + 1;
                }
                proof {
                    assert(out@ =~= old(out)@ + leaves(self.shape()));
                }
            },
            Slot::HStack(cs) => {
                let ghost sh = hshapes(cs@);
                proof {
                    lemma_hshapes_len(cs@);
                }
                let ghost start = out@;
                let mut i: usize = 0;
                while i < cs.len()
                    invariant
                        i <= cs.len(),
                        sh == hshapes(cs@),
                        sh.len() == cs@.len(),
                        forall|j: int| 0 <= j < cs@.len() ==> #[trigger] sh[j] == (cs@[j].weight, cs@[j].slot.shape()),
                        out@ + hleaves(sh, i as nat) == start + hleaves(sh, 0),
                        *self == Slot::HStack(*cs),
                    decreases cs.len() - i,
                {
                    proof {
                        assert(decreases_to!(*self => (*self)->HStack_0));
                        assert(decreases_to!(*cs => cs@));
                        assert(decreases_to!(cs@ => cs@[i as int]));
                        assert(decreases_to!(cs@[i as int] => cs@[i as int].slot));
                        lemma_hleaves_step(sh, i as nat);
                    }
                    let ghost before = out@;
                    cs[i].slot.collect_leaves(out);
                    proof {
                        assert(out@ + hleaves(sh, (i + 1) as nat) =~= before + hleaves(sh, i as nat));
                    }
                    i = i + 1;
                }
                proof {
                    assert(out@ =~= old(out)@ + leaves(self.shape()));
                }
            },
        }
    }

    /// `true` iff `target` appears anywhere in this tree.
    pub fn contains(&self, target: WidgetKind) -> (r: bool)
        ensures
            r == leaves(self.shape()).contains(target),
    {
        let mut ls: Vec<WidgetKind> = Vec::new();
        self.collect_leaves(&mut ls);
        assert(ls@ =~= leaves(self.shape()));
        let mut i: usize = 0;
        while i < ls.len()
            invariant
                i <= ls.len(),
                ls@ == leaves(self.shape()),
                forall|j: int| 0 <= j < i ==> ls@[j] != target,
            decreases ls.len() - i,
        {
            if ls[i] == target {
                assert(ls@[i as int] == target);
                return true;
            }
            i = i + 1;
        }
        false
    }

    /// Check that no widget kind appears more than once. Reports the
    /// duplicate that a stack walk (children pushed left to right) meets
    /// first.
    pub fn validate(&self) -> (r: Result<(), SlotParseError>)
        ensures
            match first_duplicate(self.shape()) {
                Some(k) => r == Err::<(), SlotParseError>(SlotParseError::DuplicateWidget(k)),
                None => r is Ok,
            },
    {
        let mut ls: Vec<WidgetKind> = Vec::new();
        self.collect_leaves(&mut ls);
        assert(ls@ =~= leaves(self.shape()));
        let ghost rev = ls@.reverse();
        let n = ls.len();
        let mut seen = crate::domain::widget_kind::PerWidget {
            cpu: false,
            mem: false,
            net: false,
            process: false,
            disk: false,
            gpu: false,
            statusbar: false,
        };
        let mut i: usize = 0;
        while i < n
            invariant
                n == ls@.len(),
                rev == ls@.reverse(),
                rev.len() == n,
                i <= n,
                rev == leaves(self.shape()).reverse(),
                forall|k: WidgetKind| seen.at(k) == rev.subrange(0, i as int).contains(k),
                dup_scan(rev, i as nat) == dup_scan(rev, 0),
            decreases n - i,
        {
            let k = ls[n - 1 - i];
            assert(k == rev[i as int]);
            if *seen.get(k) {
                return Err(SlotParseError::DuplicateWidget(k));
            }
            let ghost old_seen = seen;
            let slot = seen.get_mut(k);
            *slot = true;
            proof {
                assert(seen == old_seen.with(k, true));
                let pre = rev.subrange(0, i as int);
                let post = rev.subrange(0, i + 1);
                assert(post =~= pre.push(rev[i as int]));
                assert forall|j: WidgetKind| seen.at(j) == post.contains(j) by {
                    crate::domain::widget_kind::lemma_per_widget_read_write(old_seen, k, j, true);
                    if j == k {
                        assert(post[i as int] == k);
                    } else {
                        if post.contains(j) {
                            let w = choose|w: int| 0 <= w < post.len() && post[w] == j;
                            assert(pre[w] == j);
                        }
                        if pre.contains(j) {
                            let w = choose|w: int| 0 <= w < pre.len() && pre[w] == j;
                            assert(post[w] == j);
                        }
                    }
                }
                assert(!pre.contains(k));
            }
            i = i + 1;
        }
        Ok(())
    }

    /// Parse the layout DSL. Whitespace between tokens is ignored;
    /// empty input, syntax errors, unknown widgets, zero or oversized
    /// weights, trailing input and duplicate widgets are rejected.
    pub fn parse(s: &str) -> (r: Result<Slot, SlotParseError>)
        ensures
            match r {
                Ok(sl) => spec_parse(s@) == Ok::<SlotShape, ErrShape>(sl.shape()),
                Err(e) => spec_parse(s@) == Err::<SlotShape, ErrShape>(e@),
            },
    {
        let c = crate::text::chars_of(s);
        if x_all_unicode_ws(&c) {
            return Err(SlotParseError::Empty);
        }
        let p0 = x_skip_ws(&c, 0);
        match x_slot(&c, p0) {
            Ok((sl, p)) => {
                let q = x_skip_ws(&c, p);
                if q != c.len() {
                    return Err(SlotParseError::TrailingInput { pos: q });
                }
                match sl.validate() {
                    Ok(()) => Ok(sl),
                    Err(e) => Err(e),
                }
            },
            Err(x) => Err(x),
        }
    }
}

// ---------------------------------------------------------------------------
// Round trip: the parser reads back what the printer writes
// ---------------------------------------------------------------------------

/// Well-formed shapes: containers are non-empty and weights are positive.
pub open spec fn shape_wf(s: SlotShape) -> bool
    decreases s, 2nat,
{
    match s {
        SlotShape::Widget(_) => true,
        SlotShape::VStack(cs) => cs.len() > 0 && vwf(cs, 0),
        SlotShape::HStack(cs) => cs.len() > 0 && hwf(cs, 0),
    }
}

pub open spec fn vwf(cs: Seq<SlotShape>, i: nat) -> bool
    decreases cs, (cs.len() - i) as nat,
{
    i >= cs.len() || (shape_wf(cs[i as int]) && vwf(cs, i + 1))
}

pub open spec fn hwf(cs: Seq<(u8, SlotShape)>, i: nat) -> bool
    decreases cs, (cs.len() - i) as nat,
{
    i >= cs.len() || (cs[i as int].0 > 0 && shape_wf(cs[i as int].1) && hwf(cs, i + 1))
}

proof fn lemma_skip_ws_stop(c: Seq<char>, p: int)
    requires
        0 <= p <= c.len(),
        p == c.len() || !is_ws(c[p]),
    ensures
        skip_ws(c, p) == p,
{
}

proof fn lemma_ident_run(c: Seq<char>, s: int, e: int)
    requires
        0 <= s <= e <= c.len(),
        forall|i: int| s <= i < e ==> is_ident_char(#[trigger] c[i]),
        e == c.len() || !is_ident_char(c[e]),
    ensures
        ident_end(c, s) == e,
    decreases e - s,
{
    if s < e {
        lemma_ident_run(c, s + 1, e);
    }
}

proof fn lemma_digit_run(c: Seq<char>, s: int, e: int)
    requires
        0 <= s <= e <= c.len(),
        forall|i: int| s <= i < e ==> is_digit(#[trigger] c[i]),
        e == c.len() || !is_digit(c[e]),
    ensures
        digits_end(c, s) == e,
    decreases e - s,
{
    if s < e {
        lemma_digit_run(c, s + 1, e);
    }
}

proof fn lemma_widget_name_chars(k: WidgetKind)
    ensures
        widget_name(k).len() > 0,
        forall|i: int| 0 <= i < widget_name(k).len() ==> is_ident_char(#[trigger] widget_name(k)[i]),
        'a' <= widget_name(k)[0] && widget_name(k)[0] <= 'z',
        widget_name(k) != vstack_kw(),
        widget_name(k) != hstack_kw(),
        widget_from_name(widget_name(k)) == Some(k),
{
    crate::domain::widget_kind::lemma_widget_name_round_trip(k);
    assert(widget_name(k).len() != 6 || widget_name(k)[0] != 'v');
    assert(widget_name(k).len() != 6 || widget_name(k)[0] != 'h');
}

proof fn lemma_text_first(s: SlotShape)
    ensures
        shape_text(s).len() > 0,
        'a' <= shape_text(s)[0] && shape_text(s)[0] <= 'z',
{
    match s {
        SlotShape::Widget(k) => {
            lemma_widget_name_chars(k);
        },
        _ => {},
    }
}

/// `c[pos..pos + t.len()] == t`.
pub open spec fn text_at(c: Seq<char>, pos: int, t: Seq<char>) -> bool {
    0 <= pos && pos + t.len() <= c.len() && c.subrange(pos, pos + t.len()) == t
}

proof fn lemma_text_at_char(c: Seq<char>, pos: int, t: Seq<char>, j: int)
    requires
        text_at(c, pos, t),
        0 <= j < t.len(),
    ensures
        c[pos + j] == t[j],
{
    assert(c.subrange(pos, pos + t.len())[j] == c[pos + j]);
}

proof fn lemma_text_at_split(c: Seq<char>, pos: int, a: Seq<char>, b: Seq<char>)
    requires
        text_at(c, pos, a + b),
    ensures
        text_at(c, pos, a),
        text_at(c, pos + a.len(), b),
{
    assert(c.subrange(pos, pos + a.len()) =~= (a + b).subrange(0, a.len() as int));
    assert((a + b).subrange(0, a.len() as int) =~= a);
    assert(c.subrange(pos + a.len(), pos + a.len() + b.len()) =~= (a + b).subrange(a.len() as int, (a + b).len() as int));
    assert((a + b).subrange(a.len() as int, (a + b).len() as int) =~= b);
}

/// Parsing at `pos`, where only whitespace precedes `start` and the text
/// of a well-formed shape stands at `start`, yields that shape.
proof fn lemma_p_slot(c: Seq<char>, pos: int, start: int, s: SlotShape)
    requires
        shape_wf(s),
        0 <= pos <= start,
        skip_ws(c, pos) == start,
        text_at(c, start, shape_text(s)),
        start + shape_text(s).len() == c.len() || !is_ident_char(c[start + shape_text(s).len()]),
    ensures
        p_slot(c, pos) == Ok::<(SlotShape, int), ErrShape>((s, start + shape_text(s).len())),
    decreases s, 0nat,
{
    let t = shape_text(s);
    match s {
        SlotShape::Widget(k) => {
            lemma_widget_name_chars(k);
            assert forall|i: int| start <= i < start + t.len() implies is_ident_char(#[trigger] c[i]) by {
                lemma_text_at_char(c, start, t, i - start);
            }
            lemma_ident_run(c, start, start + t.len());
            assert(c.subrange(start, start + t.len()) == t);
        },
        SlotShape::VStack(cs) => {
            let body = vtext(cs, 0);
            assert(t == vstack_kw() + seq!['('] + body + seq![')']);
            lemma_text_at_split(c, start, vstack_kw() + seq!['('] + body, seq![')']);
            lemma_text_at_split(c, start, vstack_kw() + seq!['('], body);
            lemma_text_at_split(c, start, vstack_kw(), seq!['(']);
            assert forall|i: int| start <= i < start + 6 implies is_ident_char(#[trigger] c[i]) by {
                lemma_text_at_char(c, start, vstack_kw(), i - start);
            }
            lemma_text_at_char(c, start + 6, seq!['('], 0);
            lemma_ident_run(c, start, start + 6);
            assert(c.subrange(start, start + 6) == vstack_kw());
            lemma_skip_ws_stop(c, start + 6);
            let end_body = start + 7 + body.len();
            lemma_text_at_char(c, end_body, seq![')'], 0);
            lemma_vlist(c, start + 7, cs);
            lemma_skip_ws_stop(c, end_body);
            assert(hstack_kw() != vstack_kw()) by {
                assert(hstack_kw()[0] != vstack_kw()[0]);
            }
        },
        SlotShape::HStack(cs) => {
            let body = htext(cs, 0);
            assert(t == hstack_kw() + seq!['('] + body + seq![')']);
            lemma_text_at_split(c, start, hstack_kw() + seq!['('] + body, seq![')']);
            lemma_text_at_split(c, start, hstack_kw() + seq!['('], body);
            lemma_text_at_split(c, start, hstack_kw(), seq!['(']);
            assert forall|i: int| start <= i < start + 6 implies is_ident_char(#[trigger] c[i]) by {
                lemma_text_at_char(c, start, hstack_kw(), i - start);
            }
            lemma_text_at_char(c, start + 6, seq!['('], 0);
            lemma_ident_run(c, start, start + 6);
            assert(c.subrange(start, start + 6) == hstack_kw());
            lemma_skip_ws_stop(c, start + 6);
            let end_body = start + 7 + body.len();
            lemma_text_at_char(c, end_body, seq![')'], 0);
            lemma_hlist(c, start + 7, cs);
            lemma_skip_ws_stop(c, end_body);
            assert(hstack_kw() != vstack_kw()) by {
                assert(hstack_kw()[0] != vstack_kw()[0]);
            }
        },
    }
}

proof fn lemma_vlist(c: Seq<char>, pos: int, cs: Seq<SlotShape>)
    requires
        cs.len() > 0,
        vwf(cs, 0),
        text_at(c, pos, vtext(cs, 0)),
        pos + vtext(cs, 0).len() < c.len(),
        c[pos + vtext(cs, 0).len()] == ')',
    ensures
        p_vlist(c, pos) == Ok::<(Seq<SlotShape>, int), ErrShape>((cs, pos + vtext(cs, 0).len())),
    decreases cs, cs.len() + 1,
{
    let t0 = shape_text(cs[0]);
    assert(vtext(cs, 0) == Seq::<char>::empty() + t0 + vtext(cs, 1));
    assert(Seq::<char>::empty() + t0 =~= t0);
    lemma_text_at_split(c, pos, t0, vtext(cs, 1));
    lemma_text_first(cs[0]);
    lemma_text_at_char(c, pos, t0, 0);
    lemma_skip_ws_stop(c, pos);
    let p2 = pos + t0.len();
    if cs.len() > 1 {
        assert(vtext(cs, 1) == sep() + shape_text(cs[1]) + vtext(cs, 2));
        lemma_text_at_char(c, p2, vtext(cs, 1), 0);
    } else {
        assert(vtext(cs, 1) =~= Seq::<char>::empty());
    }
    assert(decreases_to!(cs => cs[0]));
    lemma_p_slot(c, pos, pos, cs[0]);
    assert(seq![cs[0]] =~= cs.subrange(0, 1));
    lemma_vmore(c, p2, cs, 1);
}

proof fn lemma_vmore(c: Seq<char>, pos: int, cs: Seq<SlotShape>, i: nat)
    requires
        1 <= i <= cs.len(),
        vwf(cs, i),
        text_at(c, pos, vtext(cs, i)),
        pos + vtext(cs, i).len() < c.len(),
        c[pos + vtext(cs, i).len()] == ')',
    ensures
        p_vmore(c, pos, cs.subrange(0, i as int)) == Ok::<(Seq<SlotShape>, int), ErrShape>((cs, pos + vtext(cs, i).len())),
    decreases cs, cs.len() - i,
{
    if i == cs.len() {
        assert(vtext(cs, i) =~= Seq::<char>::empty());
        lemma_skip_ws_stop(c, pos);
        assert(cs.subrange(0, i as int) =~= cs);
    } else {
        let ti = shape_text(cs[i as int]);
        assert(vtext(cs, i) == sep() + ti + vtext(cs, i + 1));
        lemma_text_at_split(c, pos, sep() + ti, vtext(cs, i + 1));
        lemma_text_at_split(c, pos, sep(), ti);
        lemma_text_at_char(c, pos, sep(), 0);
        lemma_text_at_char(c, pos, sep(), 1);
        lemma_skip_ws_stop(c, pos);
        lemma_text_first(cs[i as int]);
        lemma_text_at_char(c, pos + 2, ti, 0);
        lemma_skip_ws_stop(c, pos + 2);
        assert(skip_ws(c, pos + 1) == skip_ws(c, pos + 2));
        let p2 = pos + 2 + ti.len();
        if i + 1 < cs.len() {
            assert(vtext(cs, i + 1) == sep() + shape_text(cs[i + 1 as int]) + vtext(cs, i + 2));
            lemma_text_at_char(c, p2, vtext(cs, i + 1), 0);
        } else {
            assert(vtext(cs, i + 1) =~= Seq::<char>::empty());
        }
        assert(decreases_to!(cs => cs[i as int]));
        lemma_p_slot(c, pos + 1, pos + 2, cs[i as int]);
        assert(cs.subrange(0, i as int).push(cs[i as int]) =~= cs.subrange(0, i + 1 as int));
        lemma_vmore(c, p2, cs, i + 1);
    }
}

proof fn lemma_hchild(c: Seq<char>, pos: int, start: int, w: u8, sl: SlotShape)
    requires
        w > 0,
        shape_wf(sl),
        0 <= pos <= start,
        skip_ws(c, pos) == start,
        text_at(c, start, dec(w as nat) + seq![':'] + shape_text(sl)),
        start + (dec(w as nat) + seq![':'] + shape_text(sl)).len() < c.len(),
        !is_ident_char(c[start + (dec(w as nat) + seq![':'] + shape_text(sl)).len()]),
    ensures
        p_hchild(c, pos) == Ok::<((u8, SlotShape), int), ErrShape>(((w, sl), start + (dec(w as nat) + seq![':'] + shape_text(sl)).len())),
    decreases sl, 1nat,
{
    let d = dec(w as nat);
    let ts = shape_text(sl);
    lemma_text_at_split(c, start, d + seq![':'], ts);
    lemma_text_at_split(c, start, d, seq![':']);
    lemma_dec_digits(w as nat);
    assert forall|i: int| start <= i < start + d.len() implies is_digit(#[trigger] c[i]) by {
        lemma_text_at_char(c, start, d, i - start);
    }
    lemma_text_at_char(c, start + d.len(), seq![':'], 0);
    lemma_digit_run(c, start, start + d.len());
    assert(c.subrange(start, start + d.len()) == d);
    lemma_skip_ws_stop(c, start + d.len());
    lemma_text_first(sl);
    lemma_text_at_char(c, start + d.len() + 1, ts, 0);
    lemma_skip_ws_stop(c, start + d.len() + 1);
    lemma_p_slot(c, start + d.len() + 1, start + d.len() + 1, sl);
}

proof fn lemma_hlist(c: Seq<char>, pos: int, cs: Seq<(u8, SlotShape)>)
    requires
        cs.len() > 0,
        hwf(cs, 0),
        text_at(c, pos, htext(cs, 0)),
        pos + htext(cs, 0).len() < c.len(),
        c[pos + htext(cs, 0).len()] == ')',
    ensures
        p_hlist(c, pos) == Ok::<(Seq<(u8, SlotShape)>, int), ErrShape>((cs, pos + htext(cs, 0).len())),
    decreases cs, cs.len() + 1,
{
    let t0 = dec(cs[0].0 as nat) + seq![':'] + shape_text(cs[0].1);
    assert(htext(cs, 0) == Seq::<char>::empty() + dec(cs[0].0 as nat) + seq![':'] + shape_text(cs[0].1) + htext(cs, 1));
    assert(htext(cs, 0) =~= t0 + htext(cs, 1));
    lemma_text_at_split(c, pos, t0, htext(cs, 1));
    lemma_dec_digits(cs[0].0 as nat);
    lemma_text_at_char(c, pos, t0, 0);
    lemma_skip_ws_stop(c, pos);
    let p2 = pos + t0.len();
    if cs.len() > 1 {
        assert(htext(cs, 1) == sep() + dec(cs[1].0 as nat) + seq![':'] + shape_text(cs[1].1) + htext(cs, 2));
        lemma_text_at_char(c, p2, htext(cs, 1), 0);
    } else {
        assert(htext(cs, 1) =~= Seq::<char>::empty());
    }
    assert(decreases_to!(cs => cs[0]));
    assert(decreases_to!(cs[0] => cs[0].1));
    lemma_hchild(c, pos, pos, cs[0].0, cs[0].1);
    assert(seq![cs[0]] =~= cs.subrange(0, 1));
    lemma_hmore(c, p2, cs, 1);
}

proof fn lemma_hmore(c: Seq<char>, pos: int, cs: Seq<(u8, SlotShape)>, i: nat)
    requires
        1 <= i <= cs.len(),
        hwf(cs, i),
        text_at(c, pos, htext(cs, i)),
        pos + htext(cs, i).len() < c.len(),
        c[pos + htext(cs, i).len()] == ')',
    ensures
        p_hmore(c, pos, cs.subrange(0, i as int)) == Ok::<(Seq<(u8, SlotShape)>, int), ErrShape>((cs, pos + htext(cs, i).len())),
    decreases cs, cs.len() - i,
{
    if i == cs.len() {
        assert(htext(cs, i) =~= Seq::<char>::empty());
        lemma_skip_ws_stop(c, pos);
        assert(cs.subrange(0, i as int) =~= cs);
    } else {
        let ti = dec(cs[i as int].0 as nat) + seq![':'] + shape_text(cs[i as int].1);
        assert(htext(cs, i) =~= sep() + ti + htext(cs, i + 1));
        lemma_text_at_split(c, pos, sep() + ti, htext(cs, i + 1));
        lemma_text_at_split(c, pos, sep(), ti);
        lemma_text_at_char(c, pos, sep(), 0);
        lemma_text_at_char(c, pos, sep(), 1);
        lemma_skip_ws_stop(c, pos);
        lemma_dec_digits(cs[i as int].0 as nat);
        lemma_text_at_char(c, pos + 2, ti, 0);
        lemma_skip_ws_stop(c, pos + 2);
        assert(skip_ws(c, pos + 1) == skip_ws(c, pos + 2));
        let p2 = pos + 2 + ti.len();
        if i + 1 < cs.len() {
            assert(htext(cs, i + 1) == sep() + dec(cs[i + 1 as int].0 as nat) + seq![':'] + shape_text(cs[i + 1 as int].1) + htext(cs, i + 2));
            lemma_text_at_char(c, p2, htext(cs, i + 1), 0);
        } else {
            assert(htext(cs, i + 1) =~= Seq::<char>::empty());
        }
        assert(decreases_to!(cs => cs[i as int]));
        assert(decreases_to!(cs[i as int] => cs[i as int].1));
        lemma_hchild(c, pos + 1, pos + 2, cs[i as int].0, cs[i as int].1);
        assert(cs.subrange(0, i as int).push(cs[i as int]) =~= cs.subrange(0, i + 1 as int));
        lemma_hmore(c, p2, cs, i + 1);
    }
}

/// Printing a well-formed tree without duplicate widgets and parsing
/// the text back yields the same tree.
pub proof fn lemma_text_round_trip(s: SlotShape)
    requires
        shape_wf(s),
        first_duplicate(s) is None,
    ensures
        spec_parse(shape_text(s)) == Ok::<SlotShape, ErrShape>(s),
{
    let t = shape_text(s);
    lemma_text_first(s);
    assert(!is_unicode_ws(t[0]));
    lemma_skip_ws_stop(t, 0);
    assert(t.subrange(0, t.len() as int) =~= t);
    lemma_p_slot(t, 0, 0, s);
    lemma_skip_ws_stop(t, t.len() as int);
}

impl std::str::FromStr for Slot {
    type Err = SlotParseError;

    fn from_str(s: &str) -> (r: Result<Self, Self::Err>)
        ensures
            match r {
                Ok(sl) => spec_parse(s@) == Ok::<SlotShape, ErrShape>(sl.shape()),
                Err(e) => spec_parse(s@) == Err::<SlotShape, ErrShape>(e@),
            },
    {
        Slot::parse(s)
    }
}

} // verus!
