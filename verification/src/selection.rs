//! Selecting text in the popup to toggle a favorite: which drawn row a point
//! hits, and the drag state that a press, moves and a release drive.
//!
//! Byte indices are offsets into an item's UTF-8 text; a window is named by
//! its handle value.

use vstd::prelude::*;
use vstd::string::StringSliceAdditionalSpecFns;
use vstd::utf8::encode_utf8;
use crate::highlights::{cuttable, piece, str_piece};
use crate::normalize::{normalize_text, normalized};
use crate::popup_logic::{byte_at_x, fits_i32, row_byte_index_from_x, selected_range, SelectableRow};

verus! {

/// The selectable texts of a painted popup: the window, the texts, and
/// their drawn rows.
pub struct SelectableLayout {
    pub window: u64,
    pub items: Vec<String>,
    pub rows: Vec<SelectableRow>,
}

/// A selection being dragged within one text.
#[derive(Clone, Copy, Debug, PartialEq, Eq, Structural)]
pub struct SelectionDrag {
    pub item_id: usize,
    pub anchor: usize,
    pub current: usize,
}

/// A selected byte range of one text.
#[derive(Clone, Copy, Debug, PartialEq, Eq, Structural)]
pub struct SelectionRange {
    pub item_id: usize,
    pub start: usize,
    pub end: usize,
}

/// The popup's selection state: the last painted layout and the drag.
pub struct SelectionState {
    pub layout: Option<SelectableLayout>,
    pub drag: Option<SelectionDrag>,
}

/// What releasing the mouse leads to.
#[derive(Debug, PartialEq, Eq)]
pub enum SelectionFinish {
    /// Nothing was being selected here; nothing to redraw.
    Ignored,
    /// The selection ended without a snippet; redraw.
    Cleared,
    /// This snippet is toggled in the favorites; redraw.
    Toggle(String),
}

/// A layout as plain values.
pub struct LayoutV {
    pub window: u64,
    pub items: Seq<Seq<char>>,
    pub rows: Seq<SelectableRow>,
}

/// The selection state as plain values.
pub struct SelectionV {
    pub layout: Option<LayoutV>,
    pub drag: Option<SelectionDrag>,
}

impl SelectableLayout {
    pub open spec fn view(&self) -> LayoutV {
        LayoutV { window: self.window, items: self.items@.map_values(|s: String| s@), rows: self.rows@ }
    }
}

impl SelectionState {
    pub open spec fn view(&self) -> SelectionV {
        SelectionV {
            layout: match self.layout {
                Some(l) => Some(l.view()),
                None => None,
            },
            drag: self.drag,
        }
    }
}

// ---------------------------------------------------------------- hit tests

/// Whether a row spans the height `y` (edges included).
pub open spec fn row_hit(r: SelectableRow, y: i32) -> bool {
    y >= r.top && y <= r.bottom
}

/// The first row spanning the height `y`.
pub open spec fn first_hit(rows: Seq<SelectableRow>, y: i32) -> Option<int>
    decreases rows.len(),
{
    if rows.len() == 0 {
        None
    } else {
        match first_hit(rows.drop_last(), y) {
            Some(i) => Some(i),
            None => if row_hit(rows.last(), y) { Some(rows.len() - 1) } else { None },
        }
    }
}

/// The row at `(x, y)` and the byte index of the text it selects there.
pub open spec fn hit_at(rows: Seq<SelectableRow>, x: i32, y: i32) -> Option<(int, int)> {
    match first_hit(rows, y) {
        Some(i) => Some((i, rows[i].start + byte_at_x(rows[i], x))),
        None => None,
    }
}

/// Whether `x` minus the row's left edge fits in an `i32`.
pub open spec fn x_fits(r: SelectableRow, x: i32) -> bool {
    fits_i32(x - r.left)
}

proof fn lemma_first_hit(rows: Seq<SelectableRow>, y: i32)
    ensures
        first_hit(rows, y) matches Some(i) ==> 0 <= i < rows.len() && row_hit(rows[i], y)
            && forall|j: int| 0 <= j < i ==> !row_hit(#[trigger] rows[j], y),
        first_hit(rows, y) is None ==> forall|j: int| 0 <= j < rows.len() ==> !row_hit(#[trigger] rows[j], y),
    decreases rows.len(),
{
    if rows.len() > 0 {
        let p = rows.drop_last();
        lemma_first_hit(p, y);
        match first_hit(p, y) {
            Some(i) => {
                assert(rows[i] == p[i]);
                assert forall|j: int| 0 <= j < i implies !row_hit(#[trigger] rows[j], y) by {
                    assert(rows[j] == p[j]);
                }
            },
            None => {
                assert forall|j: int| 0 <= j < rows.len() - 1 implies !row_hit(#[trigger] rows[j], y) by {
                    assert(rows[j] == p[j]);
                }
            },
        }
    }
}

proof fn lemma_byte_at_x_bound(r: SelectableRow, x: i32)
    ensures
        r.start + byte_at_x(r, x) <= (if r.end >= r.start { r.end as int } else { r.start as int }),
{
}

/// The row a press at `(x, y)` lands on: the first drawn row spanning `y`,
/// and the byte index selected there.
pub fn hit_test_row(rows: &Vec<SelectableRow>, x: i32, y: i32) -> (r: Option<(usize, usize)>)
    requires
        first_hit(rows@, y) matches Some(i) ==> x_fits(rows@[i], x),
    ensures
        match r {
            Some((i, b)) => hit_at(rows@, x, y) == Some((i as int, b as int)) && i < rows@.len(),
            None => hit_at(rows@, x, y) is None,
        },
{
    proof {
        lemma_first_hit(rows@, y);
    }
    let mut i: usize = 0;
    while i < rows.len()
        invariant
            i <= rows.len(),
            forall|j: int| 0 <= j < i ==> !row_hit(#[trigger] rows@[j], y),
            first_hit(rows@, y) matches Some(k) ==> i <= k,
            first_hit(rows@, y) matches Some(k) ==> x_fits(rows@[k], x),
        decreases rows.len() - i,
    {
        proof {
            lemma_first_hit(rows@, y);
        }
        if y >= rows[i].top && y <= rows[i].bottom {
            assert(first_hit(rows@, y) == Some(i as int));
            let local = row_byte_index_from_x(&rows[i], x);
            proof {
                lemma_byte_at_x_bound(rows@[i as int], x);
            }
            return Some((i, rows[i].start + local));
        }
        i += 1;
    }
    None
}

/// The vertical distance from a row to the height `y` (the row spans
/// neither edge past `y`).
pub open spec fn row_distance(r: SelectableRow, y: i32) -> int {
    if y < r.top { r.top - y } else { y - r.bottom }
}

/// The first row of `item` spanning the height `y`.
pub open spec fn first_item_hit(rows: Seq<SelectableRow>, item: usize, y: i32) -> Option<int>
    decreases rows.len(),
{
    if rows.len() == 0 {
        None
    } else {
        match first_item_hit(rows.drop_last(), item, y) {
            Some(i) => Some(i),
            None => if rows.last().item_id == item && row_hit(rows.last(), y) { Some(rows.len() - 1) } else { None },
        }
    }
}

/// The row of `item` nearest to the height `y` (the first of equally near
/// ones; none nearer than `i32::MAX`), among rows not spanning `y`, and its
/// distance.
pub open spec fn nearest_row(rows: Seq<SelectableRow>, item: usize, y: i32) -> (Option<int>, int)
    decreases rows.len(),
{
    if rows.len() == 0 {
        (None, i32::MAX as int)
    } else {
        let (best, best_d) = nearest_row(rows.drop_last(), item, y);
        let r = rows.last();
        if r.item_id != item || row_hit(r, y) {
            (best, best_d)
        } else if row_distance(r, y) < best_d {
            (Some(rows.len() - 1), row_distance(r, y))
        } else {
            (best, best_d)
        }
    }
}

/// The row of `item` that `(x, y)` selects in while dragging: the first of
/// its rows spanning `y`, else the nearest one; and the byte index there.
pub open spec fn item_hit_at(rows: Seq<SelectableRow>, item: usize, x: i32, y: i32) -> Option<(int, int)> {
    match first_item_hit(rows, item, y) {
        Some(i) => Some((i, rows[i].start + byte_at_x(rows[i], x))),
        None => match nearest_row(rows, item, y).0 {
            Some(i) => Some((i, rows[i].start + byte_at_x(rows[i], x))),
            None => None,
        },
    }
}

/// How many rows the search for `item` looks at: up to its first row
/// spanning `y`, else all.
pub open spec fn scan_limit(rows: Seq<SelectableRow>, item: usize, y: i32) -> int {
    match first_item_hit(rows, item, y) {
        Some(k) => k,
        None => rows.len() as int,
    }
}

/// Whether the arithmetic of `item_hit_at` stays in the `i32` range: every
/// distance it measures before it stops, and `x` against the left edge of
/// the row it picks.
pub open spec fn item_hit_fits(rows: Seq<SelectableRow>, item: usize, x: i32, y: i32) -> bool {
    &&& forall|j: int| 0 <= j < scan_limit(rows, item, y) && (#[trigger] rows[j]).item_id == item
        ==> fits_i32(row_distance(rows[j], y))
    &&& item_hit_at(rows, item, x, y) matches Some((i, _)) ==> x_fits(rows[i], x)
}

proof fn lemma_item_rows(rows: Seq<SelectableRow>, item: usize, y: i32)
    ensures
        first_item_hit(rows, item, y) matches Some(i) ==> 0 <= i < rows.len() && rows[i].item_id == item
            && row_hit(rows[i], y)
            && forall|j: int| 0 <= j < i ==> !((#[trigger] rows[j]).item_id == item && row_hit(rows[j], y)),
        first_item_hit(rows, item, y) is None ==> forall|j: int| 0 <= j < rows.len() ==> !((#[trigger] rows[j]).item_id == item && row_hit(rows[j], y)),
        nearest_row(rows, item, y).0 matches Some(i) ==> 0 <= i < rows.len() && rows[i].item_id == item,
    decreases rows.len(),
{
    if rows.len() > 0 {
        let p = rows.drop_last();
        lemma_item_rows(p, item, y);
        match first_item_hit(p, item, y) {
            Some(i) => {
                assert(rows[i] == p[i]);
                assert forall|j: int| 0 <= j < i implies !((#[trigger] rows[j]).item_id == item && row_hit(rows[j], y)) by {
                    assert(rows[j] == p[j]);
                }
            },
            None => {
                assert forall|j: int| 0 <= j < rows.len() - 1 implies !((#[trigger] rows[j]).item_id == item && row_hit(rows[j], y)) by {
                    assert(rows[j] == p[j]);
                }
            },
        }
        match nearest_row(p, item, y).0 {
            Some(i) => {
                assert(rows[i] == p[i]);
            },
            None => {},
        }
    }
}

/// The row of `item` a drag at `(x, y)` selects in, and the byte index there.
pub fn hit_test_row_for_item(rows: &Vec<SelectableRow>, item_id: usize, x: i32, y: i32) -> (r: Option<(usize, usize)>)
    requires
        item_hit_fits(rows@, item_id, x, y),
    ensures
        match r {
            Some((i, b)) => item_hit_at(rows@, item_id, x, y) == Some((i as int, b as int)) && i < rows@.len(),
            None => item_hit_at(rows@, item_id, x, y) is None,
        },
{
    proof {
        lemma_item_rows(rows@, item_id, y);
    }
    let mut nearest: Option<usize> = None;
    let mut nearest_distance: i32 = i32::MAX;
    let mut i: usize = 0;
    while i < rows.len()
        invariant
            i <= rows.len(),
            item_hit_fits(rows@, item_id, x, y),
            forall|j: int| 0 <= j < i ==> !((#[trigger] rows@[j]).item_id == item_id && row_hit(rows@[j], y)),
            first_item_hit(rows@, item_id, y) matches Some(k) ==> i <= k,
            (match nearest { Some(n) => Some(n as int), None => None }, nearest_distance as int)
                == nearest_row(rows@.subrange(0, i as int), item_id, y),
        decreases rows.len() - i,
    {
        proof {
            lemma_item_rows(rows@, item_id, y);
        }
        let row = &rows[i];
        proof {
            let pre = rows@.subrange(0, i + 1);
            assert(pre.drop_last() =~= rows@.subrange(0, i as int));
            assert(pre.last() == rows@[i as int]);
        }
        if row.item_id == item_id {
            if y >= row.top && y <= row.bottom {
                assert(first_item_hit(rows@, item_id, y) == Some(i as int));
                let local = row_byte_index_from_x(row, x);
                proof {
                    lemma_byte_at_x_bound(rows@[i as int], x);
                }
                return Some((i, row.start + local));
            }
            let distance: i32 = if y < row.top { row.top - y } else { y - row.bottom };
            if distance < nearest_distance {
                nearest_distance = distance;
                nearest = Some(i);
            }
        }
        i += 1;
    }
    assert(rows@.subrange(0, rows.len() as int) =~= rows@);
    match nearest {
        Some(n) => {
            let row = &rows[n];
            let local = row_byte_index_from_x(row, x);
            proof {
                lemma_byte_at_x_bound(rows@[n as int], x);
            }
            Some((n, row.start + local))
        },
        None => None,
    }
}

// ---------------------------------------------------------------- the drag

/// Whether `s` has a layout painted in `window`.
pub open spec fn painted_in(s: SelectionV, window: u64) -> bool {
    match s.layout {
        Some(l) => l.window == window,
        None => false,
    }
}

/// The state after a press at `(x, y)` in `window`, and whether a drag
/// began: it begins at the row the press hits, in the layout painted there.
pub open spec fn press(s: SelectionV, window: u64, x: i32, y: i32) -> (SelectionV, bool) {
    match s.layout {
        Some(l) => if l.window != window {
            (s, false)
        } else {
            match hit_at(l.rows, x, y) {
                Some((i, b)) => (
                    SelectionV { layout: s.layout, drag: Some(SelectionDrag { item_id: l.rows[i].item_id, anchor: b as usize, current: b as usize }) },
                    true,
                ),
                None => (s, false),
            }
        },
        None => (s, false),
    }
}

/// Whether the arithmetic of a press at `(x, y)` stays in the `i32` range.
pub open spec fn press_fits(s: SelectionV, window: u64, x: i32, y: i32) -> bool {
    match s.layout {
        Some(l) => l.window == window ==> (first_hit(l.rows, y) matches Some(i) ==> x_fits(l.rows[i], x)),
        None => true,
    }
}

/// Whether the arithmetic of a drag step at `(x, y)` stays in the `i32` range.
pub open spec fn drag_fits(s: SelectionV, window: u64, x: i32, y: i32) -> bool {
    match (s.layout, s.drag) {
        (Some(l), Some(d)) => l.window == window ==> item_hit_fits(l.rows, d.item_id, x, y),
        _ => true,
    }
}

/// The state after the mouse moves to `(x, y)` while dragging in `window`,
/// and whether the selection changed: its end follows the row of the
/// dragged text that the point selects in.
pub open spec fn drag_to(s: SelectionV, window: u64, x: i32, y: i32) -> (SelectionV, bool) {
    match (s.drag, s.layout) {
        (Some(d), Some(l)) => if l.window != window {
            (s, false)
        } else {
            match item_hit_at(l.rows, d.item_id, x, y) {
                Some((_, b)) => if d.current as int != b {
                    (SelectionV { layout: s.layout, drag: Some(SelectionDrag { current: b as usize, ..d }) }, true)
                } else {
                    (s, false)
                },
                None => (s, false),
            }
        },
        _ => (s, false),
    }
}

/// The favorite snippet a release at `(x, y)` selects: the dragged text
/// between the anchor and the released point, normalized; none when that
/// is empty or cannot be cut from the text.
pub open spec fn released_snippet(l: LayoutV, d: SelectionDrag, x: i32, y: i32) -> Option<Seq<char>> {
    let cur = match item_hit_at(l.rows, d.item_id, x, y) {
        Some((_, b)) => b,
        None => d.current as int,
    };
    let a = if d.anchor <= cur { d.anchor as int } else { cur };
    let e = if d.anchor <= cur { cur } else { d.anchor as int };
    if a == e || d.item_id >= l.items.len() {
        None
    } else {
        let bytes = encode_utf8(l.items[d.item_id as int]);
        if cuttable(bytes, a, e) && normalized(piece(bytes, a, e)).len() > 0 {
            Some(normalized(piece(bytes, a, e)))
        } else {
            None
        }
    }
}

/// What a release at `(x, y)` in `window` leads to: nothing without a drag
/// or a layout painted there; else the snippet to toggle, if any. The drag
/// ends either way.
pub open spec fn release(s: SelectionV, window: u64, x: i32, y: i32) -> Option<Option<Seq<char>>> {
    match (s.drag, s.layout) {
        (Some(d), Some(l)) => if l.window != window { None } else { Some(released_snippet(l, d, x, y)) },
        _ => None,
    }
}

/// The selected byte range to paint: the drag's range within its text,
/// clipped to the text's length; none when empty.
pub open spec fn shown_range(s: SelectionV, window: u64) -> Option<SelectionRange> {
    match (s.layout, s.drag) {
        (Some(l), Some(d)) => if l.window != window || d.item_id >= l.items.len() {
            None
        } else {
            let len = encode_utf8(l.items[d.item_id as int]).len();
            let a = if d.anchor <= d.current { d.anchor } else { d.current };
            let e = if d.anchor <= d.current { d.current } else { d.anchor };
            let a2 = if a <= len { a as int } else { len as int };
            let e2 = if e <= len { e as int } else { len as int };
            if a2 >= e2 { None } else { Some(SelectionRange { item_id: d.item_id, start: a2 as usize, end: e2 as usize }) }
        },
        _ => None,
    }
}

/// The drag kept when a new layout is painted: only when the old layout
/// was for the same window and both hold the dragged text.
pub open spec fn kept_drag(s: SelectionV, l: LayoutV) -> Option<SelectionDrag> {
    match s.drag {
        Some(d) => match s.layout {
            Some(old) => if old.window == l.window && d.item_id < old.items.len() && d.item_id < l.items.len() {
                Some(d)
            } else {
                None
            },
            None => None,
        },
        None => None,
    }
}

impl SelectionState {
    /// No layout and no drag.
    pub fn new() -> (r: Self)
        ensures
            r.view().layout is None,
            r.view().drag is None,
    {
        SelectionState { layout: None, drag: None }
    }

    /// Starts a drag at the row a press at `(x, y)` hits, in the layout
    /// painted in `window`; says whether one started (and the popup is to be
    /// redrawn).
    pub fn begin_text_selection(&mut self, window: u64, x: i32, y: i32) -> (r: bool)
        requires
            press_fits(old(self).view(), window, x, y),
        ensures
            (final(self).view(), r) == press(old(self).view(), window, x, y),
    {
        let hit = match &self.layout {
            Some(l) => {
                if l.window != window {
                    return false;
                }
                match hit_test_row(&l.rows, x, y) {
                    Some((i, b)) => Some((l.rows[i].item_id, b)),
                    None => None,
                }
            },
            None => None,
        };
        match hit {
            Some((item_id, b)) => {
                self.drag = Some(SelectionDrag { item_id, anchor: b, current: b });
                true
            },
            None => false,
        }
    }

    /// Moves the end of the drag to where `(x, y)` selects in the dragged
    /// text; says whether it moved (and the popup is to be redrawn).
    pub fn update_text_selection(&mut self, window: u64, x: i32, y: i32) -> (r: bool)
        requires
            drag_fits(old(self).view(), window, x, y),
        ensures
            (final(self).view(), r) == drag_to(old(self).view(), window, x, y),
    {
        let d = match self.drag {
            Some(d) => d,
            None => return false,
        };
        let next = match &self.layout {
            Some(l) => {
                if l.window != window {
                    return false;
                }
                match hit_test_row_for_item(&l.rows, d.item_id, x, y) {
                    Some((_, b)) => b,
                    None => return false,
                }
            },
            None => return false,
        };
        if d.current != next {
            self.drag = Some(SelectionDrag { item_id: d.item_id, anchor: d.anchor, current: next });
            true
        } else {
            false
        }
    }

    /// Ends the drag at `(x, y)` and says what follows: nothing, a redraw,
    /// or a redraw after the selected snippet is toggled in the favorites.
    pub fn finish_text_selection(&mut self, window: u64, x: i32, y: i32) -> (r: SelectionFinish)
        requires
            drag_fits(old(self).view(), window, x, y),
        ensures
            final(self).view().layout == old(self).view().layout,
            final(self).view().drag is None,
            match r {
                SelectionFinish::Ignored => release(old(self).view(), window, x, y) is None,
                SelectionFinish::Cleared => release(old(self).view(), window, x, y) == Some(None::<Seq<char>>),
                SelectionFinish::Toggle(t) => release(old(self).view(), window, x, y) == Some(Some(t@)),
            },
    {
        let d = match self.drag {
            Some(d) => d,
            None => return SelectionFinish::Ignored,
        };
        self.drag = None;
        let l = match &self.layout {
            Some(l) => l,
            None => return SelectionFinish::Ignored,
        };
        if l.window != window {
            return SelectionFinish::Ignored;
        }
        let current = match hit_test_row_for_item(&l.rows, d.item_id, x, y) {
            Some((_, b)) => b,
            None => d.current,
        };
        let (a, e) = selected_range(d.anchor, current);
        if a == e || d.item_id >= l.items.len() {
            return SelectionFinish::Cleared;
        }
        let item = l.items[d.item_id].as_str();
        match str_piece(item, a, e) {
            Some(value) => {
                let snippet = normalize_text(value.as_str());
                if snippet.as_str().as_bytes().len() > 0 {
                    proof {
                        assert(snippet@.len() > 0) by {
                            if snippet@.len() == 0 {
                                assert(encode_utf8(snippet@) =~= Seq::<u8>::empty());
                            }
                        }
                    }
                    SelectionFinish::Toggle(snippet)
                } else {
                    proof {
                        if snippet@.len() > 0 {
                            assert(encode_utf8(snippet@).len() > 0);
                        }
                    }
                    SelectionFinish::Cleared
                }
            },
            None => SelectionFinish::Cleared,
        }
    }

    /// Drops the drag; says whether there was one (and the popup is to be
    /// redrawn).
    pub fn cancel_text_selection(&mut self) -> (r: bool)
        ensures
            final(self).view().layout == old(self).view().layout,
            final(self).view().drag is None,
            r == old(self).view().drag is Some,
    {
        let had = self.drag.is_some();
        self.drag = None;
        had
    }

    /// Whether a drag is going on in the layout painted in `window`.
    pub fn text_selection_active(&self, window: u64) -> (r: bool)
        ensures
            r == (painted_in(self.view(), window) && self.view().drag is Some),
    {
        match &self.layout {
            Some(l) => l.window == window && self.drag.is_some(),
            None => false,
        }
    }

    /// The selected range to paint in `window`.
    pub fn current_selection_range(&self, window: u64) -> (r: Option<SelectionRange>)
        ensures
            r == shown_range(self.view(), window),
    {
        let l = match &self.layout {
            Some(l) => l,
            None => return None,
        };
        let d = match self.drag {
            Some(d) => d,
            None => return None,
        };
        if l.window != window || d.item_id >= l.items.len() {
            return None;
        }
        let len = l.items[d.item_id].as_str().as_bytes().len();
        let (a, e) = selected_range(d.anchor, d.current);
        let start = if a <= len { a } else { len };
        let end = if e <= len { e } else { len };
        if start >= end {
            None
        } else {
            Some(SelectionRange { item_id: d.item_id, start, end })
        }
    }

    /// Keeps a newly painted layout; the drag survives only when it was in
    /// the same window and the new layout still holds the dragged text.
    pub fn store_selection_layout(&mut self, layout: SelectableLayout)
        ensures
            final(self).view().layout == Some(layout.view()),
            final(self).view().drag == kept_drag(old(self).view(), layout.view()),
    {
        if let Some(d) = self.drag {
            let keep = match &self.layout {
                Some(old) => old.window == layout.window && d.item_id < old.items.len() && d.item_id < layout.items.len(),
                None => false,
            };
            if !keep {
                self.drag = None;
            }
        }
        self.layout = Some(layout);
    }
}

/// The first row spanning `y` is also the first row of its own text
/// spanning `y`.
pub proof fn lemma_first_hit_is_item_hit(rows: Seq<SelectableRow>, y: i32)
    ensures
        first_hit(rows, y) matches Some(i) ==> first_item_hit(rows, rows[i].item_id, y) == Some(i),
    decreases rows.len(),
{
    if rows.len() > 0 {
        let p = rows.drop_last();
        lemma_first_hit_is_item_hit(p, y);
        lemma_first_hit(p, y);
        lemma_first_hit(rows, y);
        match first_hit(p, y) {
            Some(i) => {
                assert(rows[i] == p[i]);
            },
            None => {
                if row_hit(rows.last(), y) {
                    let item = rows.last().item_id;
                    lemma_item_rows(p, item, y);
                    if first_item_hit(p, item, y) is Some {
                        let k = first_item_hit(p, item, y)->0;
                        assert(row_hit(p[k], y));
                    }
                }
            },
        }
    }
}

} // verus!
