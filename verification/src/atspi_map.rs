//! Pure mappings between the AT-SPI vocabulary and the accessibility model:
//! which state flags survive, how a bound becomes window-relative, when an
//! empty field is no field at all.

use vstd::prelude::*;

use crate::chars::{all_white_space, is_blank};
use crate::model::{AccessibleState, Rect};
use crate::role::{normalize_role, normalized_role};

verus! {

/// The AT-SPI state bit (its position in the `StateSet` bitfield) each
/// mapped flag is read from.
pub open spec fn atspi_bit(s: AccessibleState) -> u64 {
    match s {
        AccessibleState::Invalid => 0,
        AccessibleState::Active => 1,
        AccessibleState::Busy => 3,
        AccessibleState::Checked => 4,
        AccessibleState::Collapsed => 5,
        AccessibleState::Defunct => 6,
        AccessibleState::Editable => 7,
        AccessibleState::Enabled => 8,
        AccessibleState::Expandable => 9,
        AccessibleState::Expanded => 10,
        AccessibleState::Focusable => 11,
        AccessibleState::Focused => 12,
        AccessibleState::Modal => 16,
        AccessibleState::Multiline => 17,
        AccessibleState::Pressed => 20,
        AccessibleState::Selectable => 22,
        AccessibleState::Selected => 23,
        AccessibleState::Sensitive => 24,
        AccessibleState::Showing => 25,
        AccessibleState::Visible => 30,
        AccessibleState::Checkable => 41,
        AccessibleState::ReadOnly => 43,
    }
}

/// The mapped flags in wire-name order (`active` < `busy` < ... < `visible`).
pub open spec fn wire_order() -> Seq<AccessibleState> {
    seq![
        AccessibleState::Active,
        AccessibleState::Busy,
        AccessibleState::Checkable,
        AccessibleState::Checked,
        AccessibleState::Collapsed,
        AccessibleState::Defunct,
        AccessibleState::Editable,
        AccessibleState::Enabled,
        AccessibleState::Expandable,
        AccessibleState::Expanded,
        AccessibleState::Focusable,
        AccessibleState::Focused,
        AccessibleState::Invalid,
        AccessibleState::Modal,
        AccessibleState::Multiline,
        AccessibleState::Pressed,
        AccessibleState::ReadOnly,
        AccessibleState::Selectable,
        AccessibleState::Selected,
        AccessibleState::Sensitive,
        AccessibleState::Showing,
        AccessibleState::Visible,
    ]
}

/// Whether bit `n` of `bits` is set.
pub open spec fn bit_set(bits: u64, n: u64) -> bool {
    (bits >> n) & 1u64 == 1u64
}

/// The flags a `StateSet` bitfield maps to: the set bits that have a
/// counterpart, sorted by wire name and without repeats; every other bit is
/// dropped.
pub open spec fn mapped_states(bits: u64) -> Seq<AccessibleState> {
    wire_order().filter(|s: AccessibleState| bit_set(bits, atspi_bit(s)))
}

/// The wire-order list of mapped flags.
fn wire_order_vec() -> (v: Vec<AccessibleState>)
    ensures
        v@ == wire_order(),
{
    let v = vec![
        AccessibleState::Active,
        AccessibleState::Busy,
        AccessibleState::Checkable,
        AccessibleState::Checked,
        AccessibleState::Collapsed,
        AccessibleState::Defunct,
        AccessibleState::Editable,
        AccessibleState::Enabled,
        AccessibleState::Expandable,
        AccessibleState::Expanded,
        AccessibleState::Focusable,
        AccessibleState::Focused,
        AccessibleState::Invalid,
        AccessibleState::Modal,
        AccessibleState::Multiline,
        AccessibleState::Pressed,
        AccessibleState::ReadOnly,
        AccessibleState::Selectable,
        AccessibleState::Selected,
        AccessibleState::Sensitive,
        AccessibleState::Showing,
        AccessibleState::Visible,
    ];
    assert(v@ =~= wire_order());
    v
}

fn bit_of(s: AccessibleState) -> (b: u64)
    ensures
        b == atspi_bit(s),
        b < 64,
{
    match s {
        AccessibleState::Invalid => 0,
        AccessibleState::Active => 1,
        AccessibleState::Busy => 3,
        AccessibleState::Checked => 4,
        AccessibleState::Collapsed => 5,
        AccessibleState::Defunct => 6,
        AccessibleState::Editable => 7,
        AccessibleState::Enabled => 8,
        AccessibleState::Expandable => 9,
        AccessibleState::Expanded => 10,
        AccessibleState::Focusable => 11,
        AccessibleState::Focused => 12,
        AccessibleState::Modal => 16,
        AccessibleState::Multiline => 17,
        AccessibleState::Pressed => 20,
        AccessibleState::Selectable => 22,
        AccessibleState::Selected => 23,
        AccessibleState::Sensitive => 24,
        AccessibleState::Showing => 25,
        AccessibleState::Visible => 30,
        AccessibleState::Checkable => 41,
        AccessibleState::ReadOnly => 43,
    }
}

/// Map an AT-SPI `StateSet` bitfield onto the state vocabulary, sorted by
/// wire name and de-duplicated.
pub fn states(bits: u64) -> (out: Vec<AccessibleState>)
    ensures
        out@ == mapped_states(bits),
{
    let order = wire_order_vec();
    let ghost pred = |s: AccessibleState| bit_set(bits, atspi_bit(s));
    let mut out: Vec<AccessibleState> = Vec::new();
    let mut i: usize = 0;
    while i < order.len()
        invariant
            i <= order.len(),
            order@ == wire_order(),
            pred == (|s: AccessibleState| bit_set(bits, atspi_bit(s))),
            out@ == order@.take(i as int).filter(pred),
        decreases order.len() - i,
    {
        let s = order[i];
        let b = bit_of(s);
        proof {
            assert(order@.take(i + 1) =~= order@.take(i as int).push(s));
            order@.take(i as int).lemma_filter_push(s, pred);
        }
        if (bits >> b) & 1 == 1 {
            out.push(s);
        }
        i += 1;
    }
    assert(order@.take(order.len() as int) =~= order@);
    out
}

/// The wire order lists each flag once, so a mapped list never repeats one.
pub proof fn lemma_mapped_states_distinct(bits: u64)
    ensures
        forall|i: int, j: int|
            0 <= i < j < mapped_states(bits).len() ==> mapped_states(bits)[i] != mapped_states(bits)[j],
{
    let w = wire_order();
    assert forall|i: int, j: int| 0 <= i < j < w.len() implies w[i] != w[j] by {
    }
    let pred = |s: AccessibleState| bit_set(bits, atspi_bit(s));
    lemma_filter_keeps_distinct(w, pred);
}

/// Filtering a sequence without repeats yields one without repeats.
pub proof fn lemma_filter_keeps_distinct(s: Seq<AccessibleState>, pred: spec_fn(AccessibleState) -> bool)
    requires
        forall|i: int, j: int| 0 <= i < j < s.len() ==> s[i] != s[j],
    ensures
        forall|i: int, j: int| 0 <= i < j < s.filter(pred).len() ==> s.filter(pred)[i] != s.filter(pred)[j],
    decreases s.len(),
{
    if s.len() > 0 {
        let p = s.drop_last();
        assert forall|i: int, j: int| 0 <= i < j < p.len() implies p[i] != p[j] by {
            assert(p[i] == s[i] && p[j] == s[j]);
        }
        lemma_filter_keeps_distinct(p, pred);
        assert(s =~= p.push(s.last()));
        p.lemma_filter_push(s.last(), pred);
        if pred(s.last()) {
            let f = s.filter(pred);
            let fp = p.filter(pred);
            assert forall|i: int, j: int| 0 <= i < j < f.len() implies f[i] != f[j] by {
                if j == f.len() - 1 {
                    assert(f[j] == s.last());
                    assert(f[i] == fp[i]);
                    assert(fp.contains(fp[i]));
                    p.lemma_filter_contains_rev(pred, fp[i]);
                    if fp[i] == s.last() {
                        let k = choose|k: int| 0 <= k < p.len() && p[k] == fp[i];
                        assert(s[k] == s[s.len() - 1]);
                    }
                } else {
                    assert(f[i] == fp[i] && f[j] == fp[j]);
                }
            }
        }
    }
}

/// An element's extents made window-relative: `None` without an area (a
/// non-positive width or height), else the rectangle shifted by the frame's
/// origin.
pub open spec fn relative_bounds_spec(x: i32, y: i32, w: i32, h: i32, ox: i32, oy: i32) -> Option<Rect> {
    if w <= 0 || h <= 0 {
        None
    } else {
        Some(Rect { x: (x - ox) as i32, y: (y - oy) as i32, w: w as u32, h: h as u32 })
    }
}

/// Make an element's screen extents `(x, y, width, height)` relative to its
/// window frame's screen `origin`.
pub fn relative_bounds(extents: (i32, i32, i32, i32), origin: (i32, i32)) -> (r: Option<Rect>)
    requires
        extents.2 > 0 && extents.3 > 0 ==> i32::MIN <= extents.0 - origin.0 <= i32::MAX
            && i32::MIN <= extents.1 - origin.1 <= i32::MAX,
    ensures
        r == relative_bounds_spec(extents.0, extents.1, extents.2, extents.3, origin.0, origin.1),
{
    let (x, y, width, height) = extents;
    if width <= 0 || height <= 0 {
        return None;
    }
    Some(Rect { x: x - origin.0, y: y - origin.1, w: width as u32, h: height as u32 })
}

/// A free-text field as the model carries it: blank (empty or white space
/// only) is no field; anything else is kept verbatim.
pub open spec fn text_value_spec(raw: Seq<char>) -> Option<Seq<char>> {
    if all_white_space(raw) { None } else { Some(raw) }
}

/// Turn a free-text field into the `Option` the model carries.
pub fn text_value(raw: &str) -> (r: Option<String>)
    ensures
        match r {
            Some(s) => text_value_spec(raw@) == Some(s@),
            None => text_value_spec(raw@) is None,
        },
{
    if is_blank(raw) {
        None
    } else {
        Some(String::from_str(raw))
    }
}

/// Normalize a toolkit's role name to the wire vocabulary.
pub fn role_name(raw: &str) -> (out: String)
    ensures
        out@ == normalized_role(raw@),
{
    normalize_role(raw)
}

} // verus!
