//! The popup's geometry and text rules that do not depend on a window:
//! header buttons, where the popup opens, text selection ranges, and the
//! highlighting of allergen suffixes.

use vstd::prelude::*;
use crate::normalize::{normalize_chars, normalized};
use crate::seqs::{deep, extend_chars};
use crate::text::{char_is_alphabetic, chars_to_string, str_chars, unicode_alphabetic};

verus! {

/// The header button an action is bound to.
#[derive(Clone, Copy, Debug, PartialEq, Eq, Structural)]
pub enum HeaderButtonAction {
    Prev,
    Next,
    Close,
}

/// A rectangle in client coordinates; both edges count as inside.
#[derive(Clone, Copy, Debug, PartialEq, Eq, Structural)]
pub struct Rect {
    pub left: i32,
    pub top: i32,
    pub right: i32,
    pub bottom: i32,
}

/// Where the header buttons are.
#[derive(Clone, Copy, Debug, PartialEq, Eq, Structural)]
pub struct HeaderLayout {
    pub prev: Rect,
    pub next: Rect,
    pub close: Rect,
}

/// Horizontal padding of the popup.
pub const PADDING_X: i32 = 12;
/// Height of the popup header.
pub const HEADER_HEIGHT: i32 = 46;
/// Side of a header button.
pub const HEADER_BUTTON_SIZE: i32 = 30;
/// Gap between the two navigation buttons.
pub const HEADER_BUTTON_GAP: i32 = 8;

/// The header layout of a popup `width` wide: previous and next on the
/// left, close on the right, all vertically centred.
pub open spec fn header_rects(width: int) -> (Rect, Rect, Rect) {
    let top = (HEADER_HEIGHT - HEADER_BUTTON_SIZE) / 2;
    let prev = Rect { left: PADDING_X, top: top as i32, right: (PADDING_X + HEADER_BUTTON_SIZE) as i32, bottom: (top + HEADER_BUTTON_SIZE) as i32 };
    let next = Rect {
        left: (prev.right + HEADER_BUTTON_GAP) as i32,
        top: top as i32,
        right: (prev.right + HEADER_BUTTON_GAP + HEADER_BUTTON_SIZE) as i32,
        bottom: (top + HEADER_BUTTON_SIZE) as i32,
    };
    let close = Rect {
        left: (width - PADDING_X - HEADER_BUTTON_SIZE) as i32,
        top: top as i32,
        right: (width - PADDING_X) as i32,
        bottom: (top + HEADER_BUTTON_SIZE) as i32,
    };
    (prev, next, close)
}

/// The header layout of a popup `width` pixels wide.
pub fn header_layout(width: i32) -> (r: HeaderLayout)
    requires
        width >= i32::MIN + PADDING_X + HEADER_BUTTON_SIZE,
    ensures
        (r.prev, r.next, r.close) == header_rects(width as int),
{
    let top: i32 = (HEADER_HEIGHT - HEADER_BUTTON_SIZE) / 2;
    let prev = Rect { left: PADDING_X, top, right: PADDING_X + HEADER_BUTTON_SIZE, bottom: top + HEADER_BUTTON_SIZE };
    let next = Rect {
        left: prev.right + HEADER_BUTTON_GAP,
        top,
        right: prev.right + HEADER_BUTTON_GAP + HEADER_BUTTON_SIZE,
        bottom: top + HEADER_BUTTON_SIZE,
    };
    let close = Rect {
        left: width - PADDING_X - HEADER_BUTTON_SIZE,
        top,
        right: width - PADDING_X,
        bottom: top + HEADER_BUTTON_SIZE,
    };
    HeaderLayout { prev, next, close }
}

/// Whether a point lies in a rectangle (edges included).
pub open spec fn in_rect(r: Rect, x: i32, y: i32) -> bool {
    x >= r.left && x <= r.right && y >= r.top && y <= r.bottom
}

/// Whether a point lies in a rectangle (edges included).
pub fn point_in_rect(rect: &Rect, x: i32, y: i32) -> (r: bool)
    ensures
        r == in_rect(*rect, x, y),
{
    x >= rect.left && x <= rect.right && y >= rect.top && y <= rect.bottom
}

/// The header button under a point of a popup `width` wide: previous,
/// next and close are tried in that order.
pub fn header_button_at(width: i32, x: i32, y: i32) -> (r: Option<HeaderButtonAction>)
    requires
        width >= i32::MIN + PADDING_X + HEADER_BUTTON_SIZE,
    ensures
        ({
            let (prev, next, close) = header_rects(width as int);
            r == if in_rect(prev, x, y) {
                Some(HeaderButtonAction::Prev)
            } else if in_rect(next, x, y) {
                Some(HeaderButtonAction::Next)
            } else if in_rect(close, x, y) {
                Some(HeaderButtonAction::Close)
            } else {
                None
            }
        }),
{
    let layout = header_layout(width);
    if point_in_rect(&layout.prev, x, y) {
        return Some(HeaderButtonAction::Prev);
    }
    if point_in_rect(&layout.next, x, y) {
        return Some(HeaderButtonAction::Next);
    }
    if point_in_rect(&layout.close, x, y) {
        return Some(HeaderButtonAction::Close);
    }
    None
}

// ---------------------------------------------------------------- placement

/// Gap between the tray icon and the popup.
pub const ANCHOR_GAP: i32 = 10;

/// Whether a value fits in an `i32`.
pub open spec fn fits_i32(v: int) -> bool {
    i32::MIN <= v <= i32::MAX
}

/// One axis of a placement kept inside `lo..hi`: first moved up to `lo`,
/// then moved back so that `start + size` does not pass `hi` (the far edge
/// wins when the popup is larger than the area).
pub open spec fn clamp_axis(start: int, size: int, lo: int, hi: int) -> int {
    let a = if start < lo { lo } else { start };
    if a + size > hi { hi - size } else { a }
}

/// Whether the steps of `clamp_axis` stay in the `i32` range.
pub open spec fn clamp_axis_fits(start: int, size: int, lo: int, hi: int) -> bool {
    let a = if start < lo { lo } else { start };
    fits_i32(a + size) && (a + size > hi ==> fits_i32(hi - size))
}

fn clamp_axis_exec(start: i32, size: i32, lo: i32, hi: i32) -> (r: i32)
    requires
        clamp_axis_fits(start as int, size as int, lo as int, hi as int),
    ensures
        r == clamp_axis(start as int, size as int, lo as int, hi as int),
{
    let a = if start < lo { lo } else { start };
    if a + size > hi { hi - size } else { a }
}

/// Where a `width` by `height` popup opened at a point goes: up and left of
/// the point, kept inside the monitor's work area.
pub open spec fn near_point(width: int, height: int, x: int, y: int, work: Rect) -> (int, int) {
    (
        clamp_axis(x - width, width, work.left as int, work.right as int),
        clamp_axis(y - height, height, work.top as int, work.bottom as int),
    )
}

/// The top-left corner of a `width` by `height` popup opened at a point,
/// in the work area of the monitor the point is on.
pub fn position_near_point(width: i32, height: i32, x: i32, y: i32, work_area: Rect) -> (r: (i32, i32))
    requires
        fits_i32(x - width),
        fits_i32(y - height),
        clamp_axis_fits(x - width, width as int, work_area.left as int, work_area.right as int),
        clamp_axis_fits(y - height, height as int, work_area.top as int, work_area.bottom as int),
    ensures
        (r.0 as int, r.1 as int) == near_point(width as int, height as int, x as int, y as int, work_area),
{
    let px = clamp_axis_exec(x - width, width, work_area.left, work_area.right);
    let py = clamp_axis_exec(y - height, height, work_area.top, work_area.bottom);
    (px, py)
}

/// The first vertical choice next to a tray icon: above it, or below it
/// when above leaves the work area's top; above again (but not past the top)
/// when below leaves its bottom.
pub open spec fn tray_first_y(height: int, tray: Rect, work: Rect) -> int {
    let above = tray.top - height - ANCHOR_GAP;
    let y1 = if above < work.top { tray.bottom + ANCHOR_GAP } else { above };
    if y1 + height > work.bottom {
        if above >= work.top { above } else { work.top as int }
    } else {
        y1
    }
}

/// Where a `width` by `height` popup opened from a tray icon goes:
/// right-aligned with the icon and above it (below when there is no room),
/// then kept inside the monitor's work area.
pub open spec fn near_tray(width: int, height: int, tray: Rect, work: Rect) -> (int, int) {
    (
        clamp_axis(tray.right - width, width, work.left as int, work.right as int),
        clamp_axis(tray_first_y(height, tray, work), height, work.top as int, work.bottom as int),
    )
}

/// Whether the steps of `near_tray` stay in the `i32` range.
pub open spec fn near_tray_fits(width: int, height: int, tray: Rect, work: Rect) -> bool {
    let above = tray.top - height - ANCHOR_GAP;
    let y1 = if above < work.top { tray.bottom + ANCHOR_GAP } else { above };
    &&& fits_i32(tray.right - width)
    &&& fits_i32(tray.top - height)
    &&& fits_i32(above)
    &&& (above < work.top ==> fits_i32(tray.bottom + ANCHOR_GAP))
    &&& fits_i32(y1 + height)
    &&& clamp_axis_fits(tray.right - width, width, work.left as int, work.right as int)
    &&& clamp_axis_fits(tray_first_y(height, tray, work), height, work.top as int, work.bottom as int)
}

/// The top-left corner of a `width` by `height` popup opened from the tray
/// icon at `tray_rect`, in the work area of the monitor the icon is on.
pub fn position_near_tray_rect(width: i32, height: i32, tray_rect: Rect, work_area: Rect) -> (r: (i32, i32))
    requires
        near_tray_fits(width as int, height as int, tray_rect, work_area),
    ensures
        (r.0 as int, r.1 as int) == near_tray(width as int, height as int, tray_rect, work_area),
{
    let above = tray_rect.top - height - ANCHOR_GAP;
    let mut y = above;
    if y < work_area.top {
        y = tray_rect.bottom + ANCHOR_GAP;
    }
    if y + height > work_area.bottom {
        y = if above >= work_area.top { above } else { work_area.top };
    }
    let x = clamp_axis_exec(tray_rect.right - width, width, work_area.left, work_area.right);
    let y = clamp_axis_exec(y, height, work_area.top, work_area.bottom);
    (x, y)
}

// ---------------------------------------------------------------- selection

/// The two ends of a selection, smaller first.
pub fn selected_range(a: usize, b: usize) -> (r: (usize, usize))
    ensures
        r == (if a <= b { (a, b) } else { (b, a) }),
{
    if a <= b { (a, b) } else { (b, a) }
}

/// Whether two half-open ranges share a position.
pub open spec fn overlap(a: (usize, usize), b: (usize, usize)) -> bool {
    (if a.0 >= b.0 { a.0 } else { b.0 }) < (if a.1 <= b.1 { a.1 } else { b.1 })
}

/// Whether two half-open ranges share a position.
pub fn ranges_overlap(a: (usize, usize), b: (usize, usize)) -> (r: bool)
    ensures
        r == overlap(a, b),
{
    let lo = if a.0 >= b.0 { a.0 } else { b.0 };
    let hi = if a.1 <= b.1 { a.1 } else { b.1 };
    lo < hi
}

/// Where a character of a selectable row starts (a byte index into the
/// row) and how far right it is drawn.
#[derive(Clone, Copy)]
pub struct SelectableBoundary {
    pub byte_index: usize,
    pub x_offset: i32,
}

/// A drawn row of a selectable text: its byte range in the text, its
/// place, and its character boundaries from left to right.
pub struct SelectableRow {
    pub item_id: usize,
    pub start: usize,
    pub end: usize,
    pub left: i32,
    pub top: i32,
    pub bottom: i32,
    pub boundaries: Vec<SelectableBoundary>,
}

/// The byte index of the last boundary, among the leading ones drawn at or
/// left of `rel_x` (zero when none is).
pub open spec fn last_boundary_at(bs: Seq<SelectableBoundary>, rel_x: int) -> usize
    decreases bs.len(),
{
    if bs.len() == 0 {
        0
    } else {
        let p = last_boundary_at(bs.drop_last(), rel_x);
        if leading_at(bs.drop_last(), rel_x) && bs.last().x_offset <= rel_x { bs.last().byte_index } else { p }
    }
}

/// Whether every boundary is drawn at or left of `rel_x`.
pub open spec fn leading_at(bs: Seq<SelectableBoundary>, rel_x: int) -> bool {
    forall|i: int| 0 <= i < bs.len() ==> (#[trigger] bs[i]).x_offset <= rel_x
}

/// The byte offset within a row that a click at `x` selects: the start of
/// the last character (of the leading run) drawn at or left of it, at most
/// the row's length; zero for a row without boundaries.
pub open spec fn byte_at_x(row: SelectableRow, x: i32) -> usize {
    if row.boundaries@.len() == 0 {
        0
    } else {
        let rel_x = if x - row.left > 0 { x - row.left } else { 0 };
        let selected = last_boundary_at(row.boundaries@, rel_x);
        let len = if row.end >= row.start { (row.end - row.start) as usize } else { 0 };
        if selected <= len { selected } else { len }
    }
}

/// The byte offset within a row that a click at `x` selects.
pub fn row_byte_index_from_x(row: &SelectableRow, x: i32) -> (r: usize)
    requires
        i32::MIN <= x - row.left <= i32::MAX,
    ensures
        r == byte_at_x(*row, x),
{
    if row.boundaries.len() == 0 {
        return 0;
    }
    let d: i32 = x - row.left;
    let rel_x: i32 = if d > 0 { d } else { 0 };
    let mut selected: usize = 0;
    let mut i: usize = 0;
    while i < row.boundaries.len() && row.boundaries[i].x_offset <= rel_x
        invariant
            i <= row.boundaries.len(),
            leading_at(row.boundaries@.subrange(0, i as int), rel_x as int),
            selected == last_boundary_at(row.boundaries@.subrange(0, i as int), rel_x as int),
        decreases row.boundaries.len() - i,
    {
        let b = row.boundaries[i];
        selected = b.byte_index;
        proof {
            let pre = row.boundaries@.subrange(0, i + 1);
            assert(pre.drop_last() =~= row.boundaries@.subrange(0, i as int));
            assert(pre.last() == b);
            assert(leading_at(pre, rel_x as int)) by {
                assert forall|j: int| 0 <= j < pre.len() implies (#[trigger] pre[j]).x_offset <= rel_x by {
                    if j < i {
                        assert(pre[j] == row.boundaries@.subrange(0, i as int)[j]);
                    }
                }
            }
        }
        i += 1;
    }
    if i < row.boundaries.len() {
        proof {
            lemma_last_boundary_stops(row.boundaries@, i as int, rel_x as int);
        }
    }
    assert(row.boundaries@.subrange(0, row.boundaries.len() as int) =~= row.boundaries@);
    let len: usize = if row.end >= row.start { row.end - row.start } else { 0 };
    if selected <= len { selected } else { len }
}

proof fn lemma_last_boundary_stops(bs: Seq<SelectableBoundary>, i: int, rel_x: int)
    requires
        0 <= i < bs.len(),
        bs[i].x_offset > rel_x,
    ensures
        last_boundary_at(bs.subrange(0, i), rel_x) == last_boundary_at(bs, rel_x),
        !leading_at(bs, rel_x),
    decreases bs.len() - i,
{
    assert(!leading_at(bs, rel_x)) by {
        assert(bs[i].x_offset > rel_x);
    }
    if i + 1 == bs.len() {
        assert(bs.drop_last() =~= bs.subrange(0, i));
    } else {
        lemma_last_boundary_stops(bs.drop_last(), i, rel_x);
        assert(bs.drop_last().subrange(0, i) =~= bs.subrange(0, i));
    }
}

// ---------------------------------------------------------------- allergen suffixes

/// The full Unicode upper-case mapping of a string (what `str::to_uppercase` returns).
pub uninterp spec fn unicode_uppercase(s: Seq<char>) -> Seq<char>;

/// `str::to_uppercase`: the Unicode upper-case mapping of the whole string.
#[verifier::external_body]
fn str_to_uppercase(s: &str) -> (r: String)
    ensures
        r@ == unicode_uppercase(s@),
{
    s.to_uppercase()
}

/// The text cut into maximal runs of alphabetic and of other characters.
pub open spec fn runs(s: Seq<char>) -> Seq<Seq<char>>
    decreases s.len(),
{
    if s.len() == 0 {
        Seq::empty()
    } else {
        let p = runs(s.drop_last());
        let c = s.last();
        if p.len() > 0 && unicode_alphabetic(p.last().last()) == unicode_alphabetic(c) {
            p.update(p.len() - 1, p.last().push(c))
        } else {
            p.push(seq![c])
        }
    }
}

/// Whether a run is an allergen token that should be highlighted: an
/// alphabetic run that reads `G`, `VEG` or `L` in upper case, with the
/// matching highlight switched on.
pub open spec fn highlighted(run: Seq<char>, gluten_free: bool, veg: bool, lactose_free: bool) -> bool {
    &&& run.len() > 0 && unicode_alphabetic(run[0])
    &&& {
        let upper = unicode_uppercase(run);
        (upper == "G"@ && gluten_free) || (upper == "VEG"@ && veg) || (upper == "L"@ && lactose_free)
    }
}

proof fn lemma_runs_nonempty(s: Seq<char>)
    ensures
        forall|i: int| 0 <= i < runs(s).len() ==> (#[trigger] runs(s)[i]).len() > 0,
    decreases s.len(),
{
    if s.len() > 0 {
        lemma_runs_nonempty(s.drop_last());
        let p = runs(s.drop_last());
        assert forall|i: int| 0 <= i < runs(s).len() implies (#[trigger] runs(s)[i]).len() > 0 by {
            if i < p.len() && !(p.len() > 0 && unicode_alphabetic(p.last().last()) == unicode_alphabetic(s.last()) && i == p.len() - 1) {
                assert(runs(s)[i] == p[i]);
            }
        }
    }
}

/// Splits an allergen suffix into segments, marking the allergen tokens
/// whose highlight is switched on.
pub fn build_suffix_segments(suffix: &str, highlight_gluten_free: bool, highlight_veg: bool, highlight_lactose_free: bool) -> (r: Vec<(String, bool)>)
    ensures
        r@.map_values(|x: (String, bool)| (x.0@, x.1)) == runs(suffix@).map_values(
            |run: Seq<char>| (run, highlighted(run, highlight_gluten_free, highlight_veg, highlight_lactose_free))),
{
    let chars = str_chars(suffix);
    let mut done: Vec<Vec<char>> = Vec::new();
    let mut current: Vec<char> = Vec::new();
    let mut i: usize = 0;
    while i < chars.len()
        invariant
            i <= chars.len(),
            chars@ == suffix@,
            i == 0 <==> current@.len() == 0,
            i > 0 ==> runs(chars@.subrange(0, i as int)) == deep(done@).push(current@),
            i == 0 ==> done@.len() == 0,
        decreases chars.len() - i,
    {
        let c = chars[i];
        let ghost pre = chars@.subrange(0, i as int);
        proof {
            assert(chars@.subrange(0, i + 1).drop_last() =~= pre);
            assert(chars@.subrange(0, i + 1).last() == c);
            lemma_runs_nonempty(pre);
            if i > 0 {
                assert(runs(pre).last() == current@);
            }
        }
        if current.len() > 0 && char_is_alphabetic(current[current.len() - 1]) == char_is_alphabetic(c) {
            let ghost old_cur = current@;
            current.push(c);
            proof {
                assert(runs(pre).last().last() == old_cur.last());
                assert(runs(chars@.subrange(0, i + 1)) == runs(pre).update(runs(pre).len() - 1, runs(pre).last().push(c)));
                assert(deep(done@).push(current@) =~= runs(pre).update(runs(pre).len() - 1, runs(pre).last().push(c)));
            }
        } else {
            let ghost d0 = deep(done@);
            proof {
                if i > 0 {
                    assert(runs(pre).last().last() == current@.last());
                }
                assert(runs(chars@.subrange(0, i + 1)) == runs(pre).push(seq![c]));
            }
            if current.len() > 0 {
                done.push(current);
                assert(deep(done@) =~= d0.push(runs(pre).last()));
            }
            current = Vec::new();
            current.push(c);
            proof {
                if i == 0 {
                    assert(pre =~= Seq::<char>::empty());
                    assert(deep(done@).push(current@) =~= seq![seq![c]]);
                } else {
                    assert(deep(done@).push(current@) =~= runs(pre).push(seq![c]));
                }
            }
        }
        i += 1;
    }
    assert(chars@.subrange(0, chars.len() as int) =~= chars@);
    if current.len() > 0 {
        done.push(current);
    }
    proof {
        if chars@.len() == 0 {
            assert(deep(done@) =~= runs(suffix@));
        } else {
            assert(deep(done@) =~= runs(suffix@));
        }
        lemma_runs_nonempty(suffix@);
        assert forall|j: int| 0 <= j < done@.len() implies (#[trigger] done@[j])@.len() > 0 by {
            assert(deep(done@)[j] == done@[j]@);
        }
    }
    let mut out: Vec<(String, bool)> = Vec::new();
    let mut k: usize = 0;
    while k < done.len()
        invariant
            k <= done.len(),
            deep(done@) == runs(suffix@),
            forall|j: int| 0 <= j < done@.len() ==> (#[trigger] done@[j])@.len() > 0,
            out@.map_values(|x: (String, bool)| (x.0@, x.1)) == deep(done@).subrange(0, k as int).map_values(
                |run: Seq<char>| (run, highlighted(run, highlight_gluten_free, highlight_veg, highlight_lactose_free))),
        decreases done.len() - k,
    {
        let run = chars_to_string(&done[k]);
        let alphabetic = char_is_alphabetic(done[k][0]);
        let flag = alphabetic && {
            let upper = str_chars(str_to_uppercase(run.as_str()).as_str());
            (crate::text::chars_eq(&upper, &str_chars("G")) && highlight_gluten_free)
                || (crate::text::chars_eq(&upper, &str_chars("VEG")) && highlight_veg)
                || (crate::text::chars_eq(&upper, &str_chars("L")) && highlight_lactose_free)
        };
        let ghost prev = out@.map_values(|x: (String, bool)| (x.0@, x.1));
        out.push((run, flag));
        k += 1;
        proof {
            assert(deep(done@)[k - 1] == done@[k - 1]@);
            assert(out@.map_values(|x: (String, bool)| (x.0@, x.1)) =~= prev.push((done@[k - 1]@, flag)));
            assert(deep(done@).subrange(0, k as int) =~= deep(done@).subrange(0, k - 1).push(deep(done@)[k - 1]));
        }
    }
    assert(deep(done@).subrange(0, done.len() as int) =~= deep(done@));
    out
}

/// The suffix segments joined back and normalized.
pub fn flatten_suffix_segments(segments: &Vec<(String, bool)>) -> (r: String)
    ensures
        r@ == normalized(crate::seqs::join(segments@.map_values(|x: (String, bool)| x.0@), Seq::empty())),
{
    let mut out: Vec<Vec<char>> = Vec::new();
    let mut i: usize = 0;
    while i < segments.len()
        invariant
            i <= segments.len(),
            deep(out@) == segments@.subrange(0, i as int).map_values(|x: (String, bool)| x.0@),
        decreases segments.len() - i,
    {
        let ghost prev = deep(out@);
        out.push(str_chars(segments[i].0.as_str()));
        i += 1;
        assert(deep(out@) =~= prev.push(segments@[i - 1].0@));
        assert(segments@.subrange(0, i as int) =~= segments@.subrange(0, i - 1).push(segments@[i - 1]));
        assert(deep(out@) =~= segments@.subrange(0, i as int).map_values(|x: (String, bool)| x.0@));
    }
    assert(segments@.subrange(0, segments.len() as int) =~= segments@);
    let joined = crate::seqs::join_chars(&out, &Vec::new());
    chars_to_string(&normalize_chars(&joined))
}

} // verus!
