//! What the popup's content layer draws: the clipped title, then each line
//! of the popup (wrapped headings and texts, menu items with their bullet,
//! favorite highlights, selection background and allergen suffix), as a
//! list of drawing operations, with the selectable rows it lays out.
//!
//! Widths come from the caller, which measures with the window's four
//! fonts; colors are named by their role in the theme. Positions that would
//! leave the range of `i32` stay at its ends.

use vstd::prelude::*;
use vstd::utf8::encode_utf8;
use crate::highlights::{
    cuttable, favorite_match_ranges, favorite_ranges, ints, piece, row_segments, segments_for_row, str_piece,
};
use crate::normalize::normalized;
use crate::app_state::AppState;
use crate::popup_lines::{build_lines, header_title, header_title_text, popup_lines, segments_view, Line, LineV};
use crate::popup_logic::{
    flatten_suffix_segments, header_layout, header_rects, HeaderLayout, SelectableBoundary, SelectableRow,
    HEADER_BUTTON_SIZE, HEADER_HEIGHT, PADDING_X,
};
use crate::popup_size::{LINE_GAP, PADDING_Y};
use crate::selection::{kept_drag, shown_range, SelectableLayout, SelectionRange, SelectionState};
use crate::text_layout::{
    add_i32, blen, bullet_prefix, char_x, deterministic, fit_text_to_width, fitted, flattened, larger, measurable,
    measure_text, pieces, row_boundaries, rows_view, sat_i32, styled_width, suffix_width, text_with_suffix_width, widths,
    wrap_rows, wrap_text_to_width_rows, FontWidths, WrappedRow,
};

verus! {

/// The four fonts of the popup.
#[derive(Clone, Copy, Debug, PartialEq, Eq, Structural)]
pub enum FontKind {
    Normal,
    Bold,
    Small,
    SmallBold,
}

/// The theme colors text is drawn in.
#[derive(Clone, Copy, Debug, PartialEq, Eq, Structural)]
pub enum ColorRole {
    HeaderTitle,
    Heading,
    Body,
    Suffix,
    SuffixHighlight,
    FavoriteHighlight,
}

/// One drawing operation: a text at a point in a font and color, or the
/// selection background over a rectangle.
pub enum DrawOp {
    Text { text: String, x: i32, y: i32, font: FontKind, color: ColorRole },
    Fill { left: i32, top: i32, right: i32, bottom: i32 },
}

/// A drawing operation as plain values.
pub enum DrawOpV {
    Text { text: Seq<char>, x: int, y: int, font: FontKind, color: ColorRole },
    Fill { left: int, top: int, right: int, bottom: int },
}

pub open spec fn op_view(o: DrawOp) -> DrawOpV {
    match o {
        DrawOp::Text { text, x, y, font, color } => DrawOpV::Text { text: text@, x: x as int, y: y as int, font, color },
        DrawOp::Fill { left, top, right, bottom } => DrawOpV::Fill {
            left: left as int,
            top: top as int,
            right: right as int,
            bottom: bottom as int,
        },
    }
}

pub open spec fn ops_view(v: Seq<DrawOp>) -> Seq<DrawOpV> {
    v.map_values(|o: DrawOp| op_view(o))
}

/// The widths of one font.
pub open spec fn font_w(f: FontWidths, k: FontKind) -> spec_fn(Seq<char>) -> int {
    match k {
        FontKind::Normal => f.normal,
        FontKind::Bold => f.bold,
        FontKind::Small => f.small,
        FontKind::SmallBold => f.small_bold,
    }
}

/// The widths the four measuring functions give.
pub open spec fn fonts_of<N: Fn(&str) -> i32, D: Fn(&str) -> i32, S: Fn(&str) -> i32, B: Fn(&str) -> i32>(
    n: N,
    d: D,
    s: S,
    b: B,
) -> FontWidths {
    FontWidths { normal: widths(n), bold: widths(d), small: widths(s), small_bold: widths(b) }
}

/// Whether all four measuring functions can be asked about any text.
pub open spec fn all_measurable<N: Fn(&str) -> i32, D: Fn(&str) -> i32, S: Fn(&str) -> i32, B: Fn(&str) -> i32>(
    n: N,
    d: D,
    s: S,
    b: B,
) -> bool {
    measurable(n) && measurable(d) && measurable(s) && measurable(b)
}

/// Whether all four measuring functions give each text one width.
pub open spec fn all_deterministic<N: Fn(&str) -> i32, D: Fn(&str) -> i32, S: Fn(&str) -> i32, B: Fn(&str) -> i32>(
    n: N,
    d: D,
    s: S,
    b: B,
) -> bool {
    deterministic(n) && deterministic(d) && deterministic(s) && deterministic(b)
}

fn measure_in<N: Fn(&str) -> i32, D: Fn(&str) -> i32, S: Fn(&str) -> i32, B: Fn(&str) -> i32>(
    font: FontKind,
    t: &str,
    n: &N,
    d: &D,
    s: &S,
    b: &B,
) -> (w: i32)
    requires
        all_measurable(*n, *d, *s, *b),
    ensures
        all_deterministic(*n, *d, *s, *b) ==> w == font_w(fonts_of(*n, *d, *s, *b), font)(t@),
{
    match font {
        FontKind::Normal => measure_text(n, t),
        FontKind::Bold => measure_text(d, t),
        FontKind::Small => measure_text(s, t),
        FontKind::SmallBold => measure_text(b, t),
    }
}

// ---------------------------------------------------------------- rows of text

/// `y` moved down by `k` lines of `lh`.
pub open spec fn step_y(y: int, lh: int, k: int) -> int
    decreases k,
{
    if k <= 0 { y } else { sat_i32(step_y(y, lh, k - 1) + lh) }
}

/// Rows of text drawn one under the other from `y`.
pub open spec fn rows_ops(rows: Seq<(Seq<char>, int, int)>, x: int, y: int, lh: int, font: FontKind, color: ColorRole) -> Seq<DrawOpV> {
    Seq::new(rows.len(), |k: int| DrawOpV::Text { text: rows[k].0, x, y: step_y(y, lh, k), font, color })
}

/// Where drawing goes on after the rows: under the last one, or one line
/// down when there was none.
pub open spec fn rows_end_y(count: int, y: int, lh: int) -> int {
    if count == 0 { sat_i32(y + lh) } else { step_y(y, lh, count) }
}

fn push_rows(
    ops: &mut Vec<DrawOp>,
    rows: &Vec<crate::text_layout::WrappedRow>,
    x: i32,
    y: i32,
    lh: i32,
    font: FontKind,
    color: ColorRole,
) -> (ny: i32)
    ensures
        ops_view(final(ops)@) == ops_view(old(ops)@) + rows_ops(crate::text_layout::rows_view(rows@), x as int, y as int, lh as int, font, color),
        ny as int == rows_end_y(rows@.len() as int, y as int, lh as int),
{
    let ghost start = ops_view(ops@);
    let ghost rv = crate::text_layout::rows_view(rows@);
    if rows.len() == 0 {
        assert(rows_ops(rv, x as int, y as int, lh as int, font, color) =~= Seq::<DrawOpV>::empty());
        assert(ops_view(ops@) =~= start + Seq::<DrawOpV>::empty());
        return add_i32(y, lh);
    }
    let mut cur = y;
    let mut k: usize = 0;
    while k < rows.len()
        invariant
            k <= rows.len(),
            rv == crate::text_layout::rows_view(rows@),
            cur as int == step_y(y as int, lh as int, k as int),
            ops_view(ops@) == start + rows_ops(rv, x as int, y as int, lh as int, font, color).take(k as int),
        decreases rows.len() - k,
    {
        let ghost before = ops_view(ops@);
        ops.push(DrawOp::Text { text: rows[k].text.clone(), x, y: cur, font, color });
        proof {
            assert(rv[k as int].0 == rows@[k as int].text@);
            assert(ops_view(ops@) =~= before.push(rows_ops(rv, x as int, y as int, lh as int, font, color)[k as int]));
            assert(rows_ops(rv, x as int, y as int, lh as int, font, color).take(k + 1) =~= rows_ops(rv, x as int, y as int, lh as int, font, color).take(k as int).push(rows_ops(rv, x as int, y as int, lh as int, font, color)[k as int]));
        }
        cur = add_i32(cur, lh);
        k += 1;
    }
    assert(rows_ops(rv, x as int, y as int, lh as int, font, color).take(rows.len() as int) =~= rows_ops(rv, x as int, y as int, lh as int, font, color));
    cur
}

// ---------------------------------------------------------------- segments

/// How a run of segments is drawn: the main text of a menu item (normal
/// font, favorites highlighted) or its allergen suffix (small font, marked
/// allergens in small bold).
#[derive(Clone, Copy, Debug, PartialEq, Eq, Structural)]
pub enum SegStyle {
    Main,
    Suffix,
}

pub open spec fn seg_font(style: SegStyle, flag: bool) -> FontKind {
    match style {
        SegStyle::Main => FontKind::Normal,
        SegStyle::Suffix => if flag { FontKind::SmallBold } else { FontKind::Small },
    }
}

pub open spec fn seg_color(style: SegStyle, flag: bool) -> ColorRole {
    match style {
        SegStyle::Main => if flag { ColorRole::FavoriteHighlight } else { ColorRole::Body },
        SegStyle::Suffix => if flag { ColorRole::SuffixHighlight } else { ColorRole::Suffix },
    }
}

/// Segments drawn left to right from `x` on one row, each after the width
/// of the ones before it; with where the next would start.
pub open spec fn seg_ops(segs: Seq<(Seq<char>, bool)>, x: int, y: int, style: SegStyle, f: FontWidths) -> (Seq<DrawOpV>, int)
    decreases segs.len(),
{
    if segs.len() == 0 {
        (Seq::empty(), x)
    } else {
        let (ops, cursor) = seg_ops(segs.drop_last(), x, y, style, f);
        let s = segs.last();
        (
            ops.push(DrawOpV::Text { text: s.0, x: cursor, y, font: seg_font(style, s.1), color: seg_color(style, s.1) }),
            sat_i32(cursor + font_w(f, seg_font(style, s.1))(s.0)),
        )
    }
}

fn push_segments<N: Fn(&str) -> i32, D: Fn(&str) -> i32, S: Fn(&str) -> i32, B: Fn(&str) -> i32>(
    ops: &mut Vec<DrawOp>,
    segs: &Vec<(String, bool)>,
    x: i32,
    y: i32,
    style: SegStyle,
    n: &N,
    d: &D,
    s: &S,
    b: &B,
)
    requires
        all_measurable(*n, *d, *s, *b),
    ensures
        all_deterministic(*n, *d, *s, *b) ==> ops_view(final(ops)@) == ops_view(old(ops)@) + seg_ops(
            crate::popup_lines::segments_view(segs@),
            x as int,
            y as int,
            style,
            fonts_of(*n, *d, *s, *b),
        ).0,
{
    let ghost f = fonts_of(*n, *d, *s, *b);
    let ghost sv = crate::popup_lines::segments_view(segs@);
    let ghost start = ops_view(ops@);
    let mut cursor = x;
    let mut k: usize = 0;
    while k < segs.len()
        invariant
            k <= segs.len(),
            all_measurable(*n, *d, *s, *b),
            f == fonts_of(*n, *d, *s, *b),
            sv == crate::popup_lines::segments_view(segs@),
            all_deterministic(*n, *d, *s, *b) ==> (ops_view(ops@), cursor as int) == ({
                let (o, c) = seg_ops(sv.take(k as int), x as int, y as int, style, f);
                (start + o, c)
            }),
        decreases segs.len() - k,
    {
        let flag = segs[k].1;
        let font = match style {
            SegStyle::Main => FontKind::Normal,
            SegStyle::Suffix => if flag { FontKind::SmallBold } else { FontKind::Small },
        };
        let color = match style {
            SegStyle::Main => if flag { ColorRole::FavoriteHighlight } else { ColorRole::Body },
            SegStyle::Suffix => if flag { ColorRole::SuffixHighlight } else { ColorRole::Suffix },
        };
        let ghost before = ops_view(ops@);
        ops.push(DrawOp::Text { text: segs[k].0.clone(), x: cursor, y, font, color });
        let width = measure_in(font, segs[k].0.as_str(), n, d, s, b);
        proof {
            assert(sv.take(k + 1).drop_last() =~= sv.take(k as int));
            assert(sv.take(k + 1).last() == sv[k as int]);
            assert(ops_view(ops@) =~= before.push(op_view(ops@[ops@.len() - 1])));
        }
        cursor = add_i32(cursor, width);
        k += 1;
    }
    assert(sv.take(segs.len() as int) =~= sv);
}

// ---------------------------------------------------------------- selection

/// The selection background of a drawn row: the part of the selection
/// `sel_start..sel_end` inside the row's byte range, from the width of the
/// row's text before it to the width before its end, one pixel short of
/// the next line; none when the selection misses the row or a cut falls
/// inside a character.
pub open spec fn selection_fill(
    row: (Seq<char>, int, int),
    sel_start: int,
    sel_end: int,
    x: int,
    y: int,
    lh: int,
    normal: spec_fn(Seq<char>) -> int,
) -> Option<DrawOpV> {
    let start = if row.1 >= sel_start { row.1 } else { sel_start };
    let end = if row.2 <= sel_end { row.2 } else { sel_end };
    let bytes = encode_utf8(row.0);
    if start >= end {
        None
    } else if !cuttable(bytes, 0, start - row.1) || !cuttable(bytes, 0, end - row.1) {
        None
    } else {
        Some(DrawOpV::Fill {
            left: sat_i32(x + normal(piece(bytes, 0, start - row.1))),
            top: y,
            right: sat_i32(x + normal(piece(bytes, 0, end - row.1))),
            bottom: sat_i32(sat_i32(y + lh) - 1),
        })
    }
}

fn push_selection_fill<N: Fn(&str) -> i32>(
    ops: &mut Vec<DrawOp>,
    row: &crate::text_layout::WrappedRow,
    sel_start: usize,
    sel_end: usize,
    x: i32,
    y: i32,
    lh: i32,
    normal: &N,
)
    requires
        measurable(*normal),
    ensures
        deterministic(*normal) ==> ops_view(final(ops)@) == ops_view(old(ops)@) + match selection_fill(
            crate::text_layout::row_view(*row),
            sel_start as int,
            sel_end as int,
            x as int,
            y as int,
            lh as int,
            widths(*normal),
        ) {
            Some(o) => seq![o],
            None => Seq::empty(),
        },
{
    let ghost before = ops_view(ops@);
    let start = if row.start >= sel_start { row.start } else { sel_start };
    let end = if row.end <= sel_end { row.end } else { sel_end };
    if start >= end {
        assert(ops_view(ops@) =~= before + Seq::<DrawOpV>::empty());
        return;
    }
    let left = match str_piece(row.text.as_str(), 0, start - row.start) {
        Some(t) => t,
        None => {
            assert(ops_view(ops@) =~= before + Seq::<DrawOpV>::empty());
            return;
        },
    };
    let right = match str_piece(row.text.as_str(), 0, end - row.start) {
        Some(t) => t,
        None => {
            assert(ops_view(ops@) =~= before + Seq::<DrawOpV>::empty());
            return;
        },
    };
    let left_width = measure_text(normal, left.as_str());
    let right_width = measure_text(normal, right.as_str());
    let op = DrawOp::Fill {
        left: add_i32(x, left_width),
        top: y,
        right: add_i32(x, right_width),
        bottom: add_i32(add_i32(y, lh), -1),
    };
    ops.push(op);
    assert(ops_view(ops@) =~= before + seq![op_view(op)]);
}

// ---------------------------------------------------------------- selectable rows

/// A selectable row as plain values: the item, its byte range, its left,
/// top and bottom, and its character boundaries (byte index, x offset).
pub open spec fn row_rec(r: SelectableRow) -> (int, int, int, int, int, int, Seq<(int, int)>) {
    (
        r.item_id as int,
        r.start as int,
        r.end as int,
        r.left as int,
        r.top as int,
        r.bottom as int,
        r.boundaries@.map_values(|b: SelectableBoundary| (b.byte_index as int, b.x_offset as int)),
    )
}

pub open spec fn rows_rec(v: Seq<SelectableRow>) -> Seq<(int, int, int, int, int, int, Seq<(int, int)>)> {
    v.map_values(|r: SelectableRow| row_rec(r))
}

/// The character boundaries of a row's text: at each character position,
/// its byte index and the widths of the characters before it.
pub open spec fn boundaries_of(text: Seq<char>, w: spec_fn(Seq<char>) -> int) -> Seq<(int, int)> {
    Seq::new((text.len() + 1) as nat, |k: int| (blen(text.take(k)), char_x(text, k, w)))
}

/// The selectable row of an item's drawn row.
pub open spec fn selectable_row(id: int, row: (Seq<char>, int, int), x: int, y: int, lh: int, normal: spec_fn(Seq<char>) -> int) -> (int, int, int, int, int, int, Seq<(int, int)>) {
    (id, row.1, row.2, x, y, sat_i32(y + lh), boundaries_of(row.0, normal))
}

fn make_row<N: Fn(&str) -> i32>(item_id: usize, row: &WrappedRow, x: i32, y: i32, lh: i32, normal: &N) -> (r: SelectableRow)
    requires
        measurable(*normal),
    ensures
        deterministic(*normal) ==> row_rec(r) == selectable_row(item_id as int, crate::text_layout::row_view(*row), x as int, y as int, lh as int, widths(*normal)),
{
    let boundaries = row_boundaries(row.text.as_str(), normal);
    let r = SelectableRow { item_id, start: row.start, end: row.end, left: x, top: y, bottom: add_i32(y, lh), boundaries };
    proof {
        if deterministic(*normal) {
            assert(r.boundaries@.map_values(|b: SelectableBoundary| (b.byte_index as int, b.x_offset as int))
                =~= boundaries_of(row.text@, widths(*normal)));
        }
    }
    r
}

// ---------------------------------------------------------------- menu items

fn measure_suffix<S: Fn(&str) -> i32, B: Fn(&str) -> i32>(segs: &Vec<(String, bool)>, small: &S, small_bold: &B) -> (r: i32)
    requires
        measurable(*small),
        measurable(*small_bold),
    ensures
        deterministic(*small) && deterministic(*small_bold) ==> r == suffix_width(segments_view(segs@), widths(*small), widths(*small_bold)),
{
    let ghost sv = segments_view(segs@);
    let mut total: i32 = 0;
    let mut i: usize = 0;
    while i < segs.len()
        invariant
            i <= segs.len(),
            sv == segments_view(segs@),
            measurable(*small),
            measurable(*small_bold),
            deterministic(*small) && deterministic(*small_bold) ==> total == suffix_width(sv.take(i as int), widths(*small), widths(*small_bold)),
        decreases segs.len() - i,
    {
        let w = if segs[i].1 { measure_text(small_bold, segs[i].0.as_str()) } else { measure_text(small, segs[i].0.as_str()) };
        proof {
            assert(sv.take(i + 1).drop_last() =~= sv.take(i as int));
            assert(sv.take(i + 1).last() == sv[i as int]);
        }
        total = add_i32(total, w);
        i += 1;
    }
    assert(sv.take(segs.len() as int) =~= sv);
    total
}

pub(crate) fn sub_i32(a: i32, b: i32) -> (r: i32)
    ensures
        r == sat_i32(a - b),
{
    let d: i64 = a as i64 - b as i64;
    if d > i32::MAX as i64 {
        i32::MAX
    } else if d < i32::MIN as i64 {
        i32::MIN
    } else {
        d as i32
    }
}

/// The selection background ops of a row, when the item has a selection.
pub open spec fn fill_ops(sel: Option<(int, int)>, row: (Seq<char>, int, int), x: int, y: int, lh: int, normal: spec_fn(Seq<char>) -> int) -> Seq<DrawOpV> {
    match sel {
        Some(r) => match selection_fill(row, r.0, r.1, x, y, lh, normal) {
            Some(o) => seq![o],
            None => Seq::empty(),
        },
        None => Seq::empty(),
    }
}

/// The bullet drawn before a menu item.
pub open spec fn bullet_op(y: int) -> DrawOpV {
    DrawOpV::Text { text: bullet_prefix(), x: PADDING_X as int, y, font: FontKind::Normal, color: ColorRole::Body }
}

/// A menu item that fits on one row: the bullet, the selection background,
/// the main text clipped to the room the suffix leaves (at least 24) with
/// its favorite highlights, and the suffix after a gap of 4 when it starts
/// inside the content area. Gives the ops, the selectable rows (when rows
/// are captured) and the next line's `y`.
pub open spec fn item_fit(
    main: Seq<char>,
    segs: Seq<(Seq<char>, bool)>,
    fav: Seq<(int, int)>,
    sel: Option<(int, int)>,
    id: int,
    capture: bool,
    y: int,
    cw: int,
    lh: int,
    bullet: int,
    f: FontWidths,
) -> (Seq<DrawOpV>, Seq<(int, int, int, int, int, int, Seq<(int, int)>)>, int) {
    let suf = suffix_width(segs, f.small, f.small_bold);
    let max_main = larger(sat_i32(sat_i32(sat_i32(cw - bullet) - suf) - 4), 24);
    let clipped = fitted(main, max_main, f.normal);
    let len = blen(clipped);
    let row = (clipped, 0int, len);
    let line_x = sat_i32(PADDING_X + bullet);
    let suffix_x = sat_i32(sat_i32(line_x + (f.normal)(clipped)) + 4);
    let ops = seq![bullet_op(y)] + fill_ops(sel, row, line_x, y, lh, f.normal)
        + seg_ops(row_segments(encode_utf8(clipped), 0, len, fav), line_x, y, SegStyle::Main, f).0
        + if segs.len() > 0 && suffix_x < sat_i32(PADDING_X + cw) {
            seg_ops(segs, suffix_x, sat_i32(y + 1), SegStyle::Suffix, f).0
        } else {
            Seq::empty()
        };
    let rows = if capture { seq![selectable_row(id, row, line_x, y, lh, f.normal)] } else { Seq::empty() };
    (ops, rows, sat_i32(y + lh))
}

fn plan_item_fits<N: Fn(&str) -> i32, D: Fn(&str) -> i32, S: Fn(&str) -> i32, B: Fn(&str) -> i32>(
    ops: &mut Vec<DrawOp>,
    rows: &mut Vec<SelectableRow>,
    main: &String,
    segs: &Vec<(String, bool)>,
    fav: &Vec<(usize, usize)>,
    sel: Option<(usize, usize)>,
    item_id: usize,
    capture: bool,
    y: i32,
    cw: i32,
    lh: i32,
    bullet: i32,
    n: &N,
    d: &D,
    s: &S,
    b: &B,
) -> (ny: i32)
    requires
        all_measurable(*n, *d, *s, *b),
    ensures
        all_deterministic(*n, *d, *s, *b) ==> ({
            let (o, r, yy) = item_fit(
                main@,
                segments_view(segs@),
                ints(fav@),
                match sel {
                    Some(p) => Some((p.0 as int, p.1 as int)),
                    None => None,
                },
                item_id as int,
                capture,
                y as int,
                cw as int,
                lh as int,
                bullet as int,
                fonts_of(*n, *d, *s, *b),
            );
            &&& ops_view(final(ops)@) == ops_view(old(ops)@) + o
            &&& rows_rec(final(rows)@) == rows_rec(old(rows)@) + r
            &&& ny as int == yy
        }),
{
    let ghost f = fonts_of(*n, *d, *s, *b);
    let ghost ops0 = ops_view(ops@);
    let ghost rows0 = rows_rec(rows@);
    let suf = measure_suffix(segs, s, b);
    let room = sub_i32(sub_i32(sub_i32(cw, bullet), suf), 4);
    let max_main = if room >= 24 { room } else { 24 };
    let clipped = fit_text_to_width(main.as_str(), max_main, n);
    let len = clipped.as_str().as_bytes().len();
    let row = WrappedRow { text: clipped.clone(), start: 0, end: len };
    let segs_row = segments_for_row(clipped.as_str(), 0, len, fav);
    let line_x = add_i32(PADDING_X, bullet);
    let bullet_text = crate::text::owned("\u{25B8} ");
    proof {
        reveal_strlit("\u{25B8} ");
        assert(bullet_text@ =~= bullet_prefix());
    }
    ops.push(DrawOp::Text { text: bullet_text, x: PADDING_X, y, font: FontKind::Normal, color: ColorRole::Body });
    let ghost ops1 = ops_view(ops@);
    assert(ops1 =~= ops0 + seq![bullet_op(y as int)]);
    if let Some(p) = sel {
        push_selection_fill(ops, &row, p.0, p.1, line_x, y, lh, n);
    }
    let ghost ops2 = ops_view(ops@);
    push_segments(ops, &segs_row, line_x, y, SegStyle::Main, n, d, s, b);
    let ghost ops3 = ops_view(ops@);
    if capture {
        let r = make_row(item_id, &row, line_x, y, lh, n);
        rows.push(r);
    }
    let ghost ops_mid = ops_view(ops@);
    if segs.len() > 0 {
        let main_width = measure_text(n, clipped.as_str());
        let suffix_x = add_i32(add_i32(line_x, main_width), 4);
        if suffix_x < add_i32(PADDING_X, cw) {
            push_segments(ops, segs, suffix_x, add_i32(y, 1), SegStyle::Suffix, n, d, s, b);
        }
    }
    proof {
        if all_deterministic(*n, *d, *s, *b) {
            let (o, r, yy) = item_fit(
                main@,
                segments_view(segs@),
                ints(fav@),
                match sel {
                    Some(p) => Some((p.0 as int, p.1 as int)),
                    None => None,
                },
                item_id as int,
                capture,
                y as int,
                cw as int,
                lh as int,
                bullet as int,
                f,
            );
            assert(ops_view(ops@) =~= ops0 + o);
            assert(rows_rec(rows@) =~= rows0 + r);
        }
    }
    add_i32(y, lh)
}

/// The ops of the `k`-th drawn row of a wrapped menu item at `y`: the
/// bullet on the first, the selection background, and the row's part of
/// the main text with its favorite highlights.
pub open spec fn item_row_ops(
    k: int,
    row: (Seq<char>, int, int),
    main: Seq<char>,
    fav: Seq<(int, int)>,
    sel: Option<(int, int)>,
    y: int,
    line_x: int,
    lh: int,
    f: FontWidths,
) -> Seq<DrawOpV> {
    (if k == 0 { seq![bullet_op(y)] } else { Seq::empty() }) + fill_ops(sel, row, line_x, y, lh, f.normal)
        + seg_ops(row_segments(encode_utf8(main), row.1, row.2, fav), line_x, y, SegStyle::Main, f).0
}

/// The first `k` drawn rows of a wrapped menu item: their ops and
/// selectable rows.
pub open spec fn item_rows_fold(
    rows: Seq<(Seq<char>, int, int)>,
    k: int,
    main: Seq<char>,
    fav: Seq<(int, int)>,
    sel: Option<(int, int)>,
    id: int,
    capture: bool,
    y: int,
    line_x: int,
    lh: int,
    f: FontWidths,
) -> (Seq<DrawOpV>, Seq<(int, int, int, int, int, int, Seq<(int, int)>)>)
    decreases k,
{
    if k <= 0 {
        (Seq::empty(), Seq::empty())
    } else {
        let (o, r) = item_rows_fold(rows, k - 1, main, fav, sel, id, capture, y, line_x, lh, f);
        let yk = step_y(y, lh, k - 1);
        (
            o + item_row_ops(k - 1, rows[k - 1], main, fav, sel, yk, line_x, lh, f),
            if capture { r.push(selectable_row(id, rows[k - 1], line_x, yk, lh, f.normal)) } else { r },
        )
    }
}

/// A menu item too wide for one row: its main text wrapped beside the
/// bullet at `main_wrap`, row by row, then its flattened suffix wrapped in
/// the small font: drawn as segments on one row when it fits there, else
/// row by row in the suffix color.
pub open spec fn item_wrap(
    main: Seq<char>,
    segs: Seq<(Seq<char>, bool)>,
    fav: Seq<(int, int)>,
    sel: Option<(int, int)>,
    id: int,
    capture: bool,
    y: int,
    cw: int,
    lh: int,
    bullet: int,
    main_wrap: int,
    f: FontWidths,
) -> (Seq<DrawOpV>, Seq<(int, int, int, int, int, int, Seq<(int, int)>)>, int) {
    let wrapped = pieces(normalized(main), wrap_rows(main, main_wrap, f.normal));
    let line_x = sat_i32(PADDING_X + bullet);
    let (o1, r1) = item_rows_fold(wrapped, wrapped.len() as int, main, fav, sel, id, capture, y, line_x, lh, f);
    let y1 = rows_end_y(wrapped.len() as int, y, lh);
    let plain = flattened(segs);
    if segs.len() > 0 && plain.len() > 0 {
        let srows = pieces(normalized(plain), wrap_rows(plain, cw, f.small));
        if srows.len() == 1 {
            (o1 + seg_ops(segs, line_x, sat_i32(y1 + 1), SegStyle::Suffix, f).0, r1, sat_i32(y1 + lh))
        } else {
            (o1 + rows_ops(srows, line_x, y1, lh, FontKind::Small, ColorRole::Suffix), r1, rows_end_y(srows.len() as int, y1, lh))
        }
    } else {
        (o1, r1, y1)
    }
}

fn plan_item_wraps<N: Fn(&str) -> i32, D: Fn(&str) -> i32, S: Fn(&str) -> i32, B: Fn(&str) -> i32>(
    ops: &mut Vec<DrawOp>,
    rows: &mut Vec<SelectableRow>,
    main: &String,
    segs: &Vec<(String, bool)>,
    fav: &Vec<(usize, usize)>,
    sel: Option<(usize, usize)>,
    item_id: usize,
    capture: bool,
    y: i32,
    cw: i32,
    lh: i32,
    bullet: i32,
    main_wrap: i32,
    n: &N,
    d: &D,
    s: &S,
    b: &B,
) -> (ny: i32)
    requires
        all_measurable(*n, *d, *s, *b),
    ensures
        all_deterministic(*n, *d, *s, *b) ==> ({
            let (o, r, yy) = item_wrap(
                main@,
                segments_view(segs@),
                ints(fav@),
                match sel {
                    Some(p) => Some((p.0 as int, p.1 as int)),
                    None => None,
                },
                item_id as int,
                capture,
                y as int,
                cw as int,
                lh as int,
                bullet as int,
                main_wrap as int,
                fonts_of(*n, *d, *s, *b),
            );
            &&& ops_view(final(ops)@) == ops_view(old(ops)@) + o
            &&& rows_rec(final(rows)@) == rows_rec(old(rows)@) + r
            &&& ny as int == yy
        }),
{
    let ghost f = fonts_of(*n, *d, *s, *b);
    let ghost all = all_deterministic(*n, *d, *s, *b);
    let ghost ops0 = ops_view(ops@);
    let ghost rows0 = rows_rec(rows@);
    let ghost selv = match sel {
        Some(p) => Some((p.0 as int, p.1 as int)),
        None => None,
    };
    let wrapped = wrap_text_to_width_rows(main.as_str(), main_wrap, n);
    let ghost wv = rows_view(wrapped@);
    let line_x = add_i32(PADDING_X, bullet);
    let mut cur = y;
    let mut k: usize = 0;
    while k < wrapped.len()
        invariant
            k <= wrapped.len(),
            all_measurable(*n, *d, *s, *b),
            f == fonts_of(*n, *d, *s, *b),
            all == all_deterministic(*n, *d, *s, *b),
            wv == rows_view(wrapped@),
            line_x as int == sat_i32(PADDING_X + bullet),
            cur as int == step_y(y as int, lh as int, k as int),
            selv == match sel {
                Some(p) => Some((p.0 as int, p.1 as int)),
                None => None,
            },
            all ==> ({
                let (o, r) = item_rows_fold(wv, k as int, main@, ints(fav@), selv, item_id as int, capture, y as int, line_x as int, lh as int, f);
                ops_view(ops@) == ops0 + o && rows_rec(rows@) == rows0 + r
            }),
        decreases wrapped.len() - k,
    {
        let ghost ops_before = ops_view(ops@);
        let ghost rows_before = rows_rec(rows@);
        if k == 0 {
            let bullet_text = crate::text::owned("\u{25B8} ");
            proof {
                reveal_strlit("\u{25B8} ");
                assert(bullet_text@ =~= bullet_prefix());
            }
            ops.push(DrawOp::Text { text: bullet_text, x: PADDING_X, y: cur, font: FontKind::Normal, color: ColorRole::Body });
        }
        let ghost ops_b = ops_view(ops@);
        if let Some(p) = sel {
            push_selection_fill(ops, &wrapped[k], p.0, p.1, line_x, cur, lh, n);
        }
        let ghost ops_f = ops_view(ops@);
        let segs_row = segments_for_row(main.as_str(), wrapped[k].start, wrapped[k].end, fav);
        push_segments(ops, &segs_row, line_x, cur, SegStyle::Main, n, d, s, b);
        if capture {
            let r = make_row(item_id, &wrapped[k], line_x, cur, lh, n);
            rows.push(r);
        }
        proof {
            if all {
                assert(wv[k as int] == crate::text_layout::row_view(wrapped@[k as int]));
                let part = item_row_ops(k as int, wv[k as int], main@, ints(fav@), selv, cur as int, line_x as int, lh as int, f);
                assert(k == 0 ==> ops_b =~= ops_before + seq![bullet_op(cur as int)]);
                assert(k != 0 ==> ops_b =~= ops_before);
                assert(ops_view(ops@) =~= ops_before + part);
                let (o, r) = item_rows_fold(wv, k as int, main@, ints(fav@), selv, item_id as int, capture, y as int, line_x as int, lh as int, f);
                assert(ops0 + o + part =~= ops0 + (o + part));
                if capture {
                    assert(rows_rec(rows@) =~= rows_before.push(selectable_row(item_id as int, wv[k as int], line_x as int, cur as int, lh as int, f.normal)));
                    assert(rows0 + r.push(selectable_row(item_id as int, wv[k as int], line_x as int, cur as int, lh as int, f.normal))
                        =~= (rows0 + r).push(selectable_row(item_id as int, wv[k as int], line_x as int, cur as int, lh as int, f.normal)));
                }
            }
        }
        cur = add_i32(cur, lh);
        k += 1;
    }
    let y1 = if wrapped.len() == 0 { add_i32(y, lh) } else { cur };
    let ghost ops1 = ops_view(ops@);
    let mut y2 = y1;
    if segs.len() > 0 {
        let plain = flatten_suffix_segments(segs);
        assert(segments_view(segs@).map_values(|p: (Seq<char>, bool)| p.0) =~= segs@.map_values(|x: (String, bool)| x.0@));
        if crate::text::str_chars(plain.as_str()).len() > 0 {
            let srows = wrap_text_to_width_rows(plain.as_str(), cw, s);
            if srows.len() == 1 {
                push_segments(ops, segs, line_x, add_i32(y1, 1), SegStyle::Suffix, n, d, s, b);
                y2 = add_i32(y1, lh);
            } else {
                y2 = push_rows(ops, &srows, line_x, y1, lh, FontKind::Small, ColorRole::Suffix);
            }
        }
    }
    proof {
        if all {
            assert(wrapped@.len() == wv.len());
        }
    }
    y2
}

// ---------------------------------------------------------------- lines

/// `x` halved, rounding toward zero.
pub open spec fn half(x: int) -> int {
    if x >= 0 { x / 2 } else { -((-x) / 2) }
}

fn half_i32(v: i32) -> (r: i32)
    ensures
        r == half(v as int),
{
    let w = v as i64;
    let h: i64 = if w >= 0 { w / 2 } else { -((-w) / 2) };
    h as i32
}

/// What every line of a layer is drawn with: the content width, the line
/// height, the bullet's width, the width menu items wrap at, the favorite
/// snippets (lowercased), the selection (item, start, end), whether rows
/// are captured for selecting, and the font widths.
pub struct LayerCtx {
    pub cw: int,
    pub lh: int,
    pub bullet: int,
    pub main_wrap: int,
    pub favorites: Seq<Seq<char>>,
    pub selection: Option<(int, int, int)>,
    pub capture: bool,
    pub f: FontWidths,
}

/// A layer being planned: its ops, where the next line goes, the captured
/// item texts and the selectable rows.
pub struct PlanState {
    pub ops: Seq<DrawOpV>,
    pub y: int,
    pub items: Seq<Seq<char>>,
    pub rows: Seq<(int, int, int, int, int, int, Seq<(int, int)>)>,
}

/// One line planned: headings (bold) and texts wrapped to the content
/// width row by row (one empty line when blank); a menu item on one row
/// when it fits, else wrapped (its text captured as the next item, and the
/// selection shown when it is this item's); a spacer half a line.
pub open spec fn line_plan(st: PlanState, line: LineV, c: LayerCtx) -> PlanState {
    match line {
        LineV::Heading(t) => {
            let rows = pieces(normalized(t), wrap_rows(t, c.cw, c.f.bold));
            PlanState {
                ops: st.ops + rows_ops(rows, PADDING_X as int, st.y, c.lh, FontKind::Bold, ColorRole::Heading),
                y: rows_end_y(rows.len() as int, st.y, c.lh),
                ..st
            }
        },
        LineV::Text(t) => {
            let rows = pieces(normalized(t), wrap_rows(t, c.cw, c.f.normal));
            PlanState {
                ops: st.ops + rows_ops(rows, PADDING_X as int, st.y, c.lh, FontKind::Normal, ColorRole::Body),
                y: rows_end_y(rows.len() as int, st.y, c.lh),
                ..st
            }
        },
        LineV::MenuItem { main, suffix_segments } => {
            let fav = favorite_ranges(main, c.favorites);
            let id = st.items.len() as int;
            let sel = if c.capture {
                match c.selection {
                    Some(x) => if x.0 == id { Some((x.1, x.2)) } else { None },
                    None => None,
                }
            } else {
                None
            };
            let sw = styled_width(main, suffix_segments, c.bullet, c.f.normal, c.f.small, c.f.small_bold);
            let (o, r, y) = if sw <= c.cw {
                item_fit(main, suffix_segments, fav, sel, id, c.capture, st.y, c.cw, c.lh, c.bullet, c.f)
            } else {
                item_wrap(main, suffix_segments, fav, sel, id, c.capture, st.y, c.cw, c.lh, c.bullet, c.main_wrap, c.f)
            };
            PlanState {
                ops: st.ops + o,
                y,
                items: if c.capture { st.items.push(main) } else { st.items },
                rows: st.rows + r,
            }
        },
        LineV::Spacer => PlanState { y: sat_i32(st.y + half(c.lh)), ..st },
    }
}

/// The first `k` lines planned from `st`.
pub open spec fn plan_fold(lines: Seq<LineV>, k: int, st: PlanState, c: LayerCtx) -> PlanState
    decreases k,
{
    if k <= 0 { st } else { line_plan(plan_fold(lines, k - 1, st, c), lines[k - 1], c) }
}

/// The item texts captured from the first `k` lines: the main text of each
/// menu item.
pub open spec fn item_mains(lines: Seq<LineV>, k: int) -> Seq<Seq<char>>
    decreases k,
{
    if k <= 0 {
        Seq::empty()
    } else {
        match lines[k - 1] {
            LineV::MenuItem { main, .. } => item_mains(lines, k - 1).push(main),
            _ => item_mains(lines, k - 1),
        }
    }
}

/// A planned layer.
pub struct ContentPlan {
    pub ops: Vec<DrawOp>,
    pub items: Vec<String>,
    pub rows: Vec<SelectableRow>,
}

pub open spec fn plan_state(p: ContentPlan, y: int) -> PlanState {
    PlanState { ops: ops_view(p.ops@), y, items: p.items@.map_values(|s: String| s@), rows: rows_rec(p.rows@) }
}

fn plan_line<N: Fn(&str) -> i32, D: Fn(&str) -> i32, S: Fn(&str) -> i32, B: Fn(&str) -> i32>(
    plan: &mut ContentPlan,
    y: i32,
    line: &Line,
    cw: i32,
    lh: i32,
    bullet: i32,
    main_wrap: i32,
    favorites: &Vec<String>,
    selection: Option<SelectionRange>,
    capture: bool,
    n: &N,
    d: &D,
    s: &S,
    b: &B,
) -> (ny: i32)
    requires
        all_measurable(*n, *d, *s, *b),
    ensures
        final(plan).items@.map_values(|t: String| t@) == if capture {
            match line.deep_view() {
                LineV::MenuItem { main, .. } => old(plan).items@.map_values(|t: String| t@).push(main),
                _ => old(plan).items@.map_values(|t: String| t@),
            }
        } else {
            old(plan).items@.map_values(|t: String| t@)
        },
        all_deterministic(*n, *d, *s, *b) ==> plan_state(*final(plan), ny as int) == line_plan(
            plan_state(*old(plan), y as int),
            line.deep_view(),
            LayerCtx {
                cw: cw as int,
                lh: lh as int,
                bullet: bullet as int,
                main_wrap: main_wrap as int,
                favorites: favorites@.map_values(|t: String| t@),
                selection: match selection {
                    Some(x) => Some((x.item_id as int, x.start as int, x.end as int)),
                    None => None,
                },
                capture,
                f: fonts_of(*n, *d, *s, *b),
            },
        ),
{
    let ghost st0 = plan_state(*plan, y as int);
    let ghost items0 = plan.items@.map_values(|t: String| t@);
    match line {
        Line::Heading(text) => {
            let rows = wrap_text_to_width_rows(text.as_str(), cw, d);
            let ny = push_rows(&mut plan.ops, &rows, PADDING_X, y, lh, FontKind::Bold, ColorRole::Heading);
            proof {
                assert(plan.items@.map_values(|t: String| t@) =~= items0);
            }
            ny
        },
        Line::Text(text) => {
            let rows = wrap_text_to_width_rows(text.as_str(), cw, n);
            let ny = push_rows(&mut plan.ops, &rows, PADDING_X, y, lh, FontKind::Normal, ColorRole::Body);
            proof {
                assert(plan.items@.map_values(|t: String| t@) =~= items0);
            }
            ny
        },
        Line::MenuItem { main, suffix_segments } => {
            let fav = favorite_match_ranges(main.as_str(), favorites);
            let styled = text_with_suffix_width(main.as_str(), suffix_segments, bullet, n, s, b);
            let id = plan.items.len();
            if capture {
                plan.items.push(main.clone());
                assert(plan.items@.map_values(|t: String| t@) =~= items0.push(main@));
            } else {
                assert(plan.items@.map_values(|t: String| t@) =~= items0);
            }
            let sel: Option<(usize, usize)> = if capture {
                match selection {
                    Some(x) => if x.item_id == id { Some((x.start, x.end)) } else { None },
                    None => None,
                }
            } else {
                None
            };
            if styled <= cw {
                plan_item_fits(&mut plan.ops, &mut plan.rows, main, suffix_segments, &fav, sel, id, capture, y, cw, lh, bullet, n, d, s, b)
            } else {
                plan_item_wraps(
                    &mut plan.ops,
                    &mut plan.rows,
                    main,
                    suffix_segments,
                    &fav,
                    sel,
                    id,
                    capture,
                    y,
                    cw,
                    lh,
                    bullet,
                    main_wrap,
                    n,
                    d,
                    s,
                    b,
                )
            }
        },
        Line::Spacer => {
            proof {
                assert(plan.items@.map_values(|t: String| t@) =~= items0);
            }
            add_i32(y, half_i32(lh))
        },
    }
}

// ---------------------------------------------------------------- the layer

/// The header title: fitted in bold to the room between the "next" and
/// "close" buttons (less 24, at least 40), centered in the popup but not
/// left of 12 past the "next" button, vertically centered in the header
/// and moved by `y_offset`.
pub open spec fn title_op(title: Seq<char>, width: int, layout: HeaderLayout, font_height: int, y_offset: int, f: FontWidths) -> DrawOpV {
    let room = larger(sat_i32(sat_i32(layout.close.left - layout.next.right) - 24), 40);
    let clipped = fitted(title, room, f.bold);
    let x = larger(half(sat_i32(width - (f.bold)(clipped))), sat_i32(layout.next.right + 12));
    let y = sat_i32(sat_i32(half(sat_i32(HEADER_HEIGHT - font_height)) - 1) + y_offset);
    DrawOpV::Text { text: clipped, x, y, font: FontKind::Bold, color: ColorRole::HeaderTitle }
}

/// The whole layer: the title, then the lines from under the header (and
/// its padding), moved by `y_offset`; menu items wrap beside the bullet at
/// the content width less the bullet (at least 24).
pub open spec fn layer_plan(
    title: Seq<char>,
    lines: Seq<LineV>,
    width: int,
    cw: int,
    layout: HeaderLayout,
    font_height: int,
    lh: int,
    favorites: Seq<Seq<char>>,
    selection: Option<(int, int, int)>,
    capture: bool,
    y_offset: int,
    f: FontWidths,
) -> PlanState {
    let bullet = (f.normal)(bullet_prefix());
    let c = LayerCtx {
        cw,
        lh,
        bullet,
        main_wrap: larger(sat_i32(cw - bullet), 24),
        favorites,
        selection,
        capture,
        f,
    };
    let st0 = PlanState {
        ops: seq![title_op(title, width, layout, font_height, y_offset, f)],
        y: sat_i32(HEADER_HEIGHT + PADDING_Y + y_offset),
        items: Seq::empty(),
        rows: Seq::empty(),
    };
    plan_fold(lines, lines.len() as int, st0, c)
}

/// Plans the popup's content layer: the title and `lines` in a popup
/// `width` wide with `content_width` for text, under the header buttons of
/// `layout`, with the normal font's height and the line height, favorites
/// highlighted (lowercased snippets), `selection` shown on its item, rows
/// captured for selecting when `capture` is set, and everything moved down
/// by `y_offset`. The captured items are the menu items' main texts in
/// order whatever the widths; with deterministic measuring the whole plan
/// is as `layer_plan` says.
pub fn plan_content_layer<N: Fn(&str) -> i32, D: Fn(&str) -> i32, S: Fn(&str) -> i32, B: Fn(&str) -> i32>(
    title: &str,
    lines: &Vec<Line>,
    width: i32,
    content_width: i32,
    layout: &HeaderLayout,
    font_height: i32,
    line_height: i32,
    favorites: &Vec<String>,
    selection: Option<SelectionRange>,
    capture: bool,
    y_offset: i32,
    normal: &N,
    bold: &D,
    small: &S,
    small_bold: &B,
) -> (r: ContentPlan)
    requires
        all_measurable(*normal, *bold, *small, *small_bold),
    ensures
        r.items@.map_values(|t: String| t@) == if capture {
            item_mains(lines.deep_view(), lines@.len() as int)
        } else {
            Seq::empty()
        },
        all_deterministic(*normal, *bold, *small, *small_bold) ==> ({
            let p = layer_plan(
                title@,
                lines.deep_view(),
                width as int,
                content_width as int,
                *layout,
                font_height as int,
                line_height as int,
                favorites@.map_values(|t: String| t@),
                match selection {
                    Some(x) => Some((x.item_id as int, x.start as int, x.end as int)),
                    None => None,
                },
                capture,
                y_offset as int,
                fonts_of(*normal, *bold, *small, *small_bold),
            );
            &&& ops_view(r.ops@) == p.ops
            &&& r.items@.map_values(|t: String| t@) == p.items
            &&& rows_rec(r.rows@) == p.rows
        }),
{
    let ghost f = fonts_of(*normal, *bold, *small, *small_bold);
    let ghost all = all_deterministic(*normal, *bold, *small, *small_bold);
    let ghost lv = lines.deep_view();
    let room = sub_i32(sub_i32(layout.close.left, layout.next.right), 24);
    let room = if room >= 40 { room } else { 40 };
    let clipped = fit_text_to_width(title, room, bold);
    let title_width = measure_text(bold, clipped.as_str());
    let centered = half_i32(sub_i32(width, title_width));
    let min_x = add_i32(layout.next.right, 12);
    let title_x = if centered >= min_x { centered } else { min_x };
    let title_y = add_i32(sub_i32(half_i32(sub_i32(HEADER_HEIGHT, font_height)), 1), y_offset);
    let mut plan = ContentPlan { ops: Vec::new(), items: Vec::new(), rows: Vec::new() };
    plan.ops.push(DrawOp::Text { text: clipped, x: title_x, y: title_y, font: FontKind::Bold, color: ColorRole::HeaderTitle });
    let bullet_text = "\u{25B8} ";
    proof {
        reveal_strlit("\u{25B8} ");
    }
    assert(bullet_text@ =~= bullet_prefix());
    let bullet = measure_text(normal, bullet_text);
    let main_wrap_room = sub_i32(content_width, bullet);
    let main_wrap = if main_wrap_room >= 24 { main_wrap_room } else { 24 };
    let mut y = add_i32(HEADER_HEIGHT + PADDING_Y, y_offset);
    let ghost c = LayerCtx {
        cw: content_width as int,
        lh: line_height as int,
        bullet: bullet as int,
        main_wrap: main_wrap as int,
        favorites: favorites@.map_values(|t: String| t@),
        selection: match selection {
            Some(x) => Some((x.item_id as int, x.start as int, x.end as int)),
            None => None,
        },
        capture,
        f,
    };
    let ghost st0 = plan_state(plan, y as int);
    proof {
        if all {
            assert(st0.ops =~= seq![title_op(title@, width as int, *layout, font_height as int, y_offset as int, f)]);
            assert(st0.items =~= Seq::<Seq<char>>::empty());
            assert(st0.rows =~= Seq::<(int, int, int, int, int, int, Seq<(int, int)>)>::empty());
        }
        assert(plan.items@.map_values(|t: String| t@) =~= Seq::<Seq<char>>::empty());
    }
    let mut i: usize = 0;
    while i < lines.len()
        invariant
            i <= lines.len(),
            lv == lines.deep_view(),
            all_measurable(*normal, *bold, *small, *small_bold),
            f == fonts_of(*normal, *bold, *small, *small_bold),
            all == all_deterministic(*normal, *bold, *small, *small_bold),
            c == (LayerCtx {
                cw: content_width as int,
                lh: line_height as int,
                bullet: bullet as int,
                main_wrap: main_wrap as int,
                favorites: favorites@.map_values(|t: String| t@),
                selection: match selection {
                    Some(x) => Some((x.item_id as int, x.start as int, x.end as int)),
                    None => None,
                },
                capture,
                f,
            }),
            plan.items@.map_values(|t: String| t@) == if capture { item_mains(lv, i as int) } else { Seq::empty() },
            all ==> plan_state(plan, y as int) == plan_fold(lv, i as int, st0, c),
        decreases lines.len() - i,
    {
        assert(lv[i as int] == lines@[i as int].deep_view());
        y = plan_line(&mut plan, y, &lines[i], content_width, line_height, bullet, main_wrap, favorites, selection, capture, normal, bold, small, small_bold);
        i += 1;
    }
    plan
}

// ---------------------------------------------------------------- the shown popup

/// The header buttons of a popup `width` wide.
pub open spec fn header_of(width: int) -> HeaderLayout {
    HeaderLayout { prev: header_rects(width).0, next: header_rects(width).1, close: header_rects(width).2 }
}

/// The content layer of a popup `width` wide showing `st` without
/// animation: its title and lines at the content width (the width less the
/// padding, at least 40), one line being the font's height and the line
/// gap, the current selection shown, and rows captured.
pub open spec fn static_layer(
    st: crate::app_state::AppStateV,
    now_ms: i64,
    expensive: Seq<bool>,
    width: int,
    font_height: int,
    favorites: Seq<Seq<char>>,
    selection: Option<SelectionRange>,
    f: FontWidths,
) -> PlanState {
    layer_plan(
        header_title_text(st.settings),
        popup_lines(st, now_ms, expensive),
        width,
        larger(sat_i32(width - PADDING_X * 2), 40),
        header_of(width),
        font_height,
        sat_i32(font_height + LINE_GAP),
        favorites,
        match selection {
            Some(x) => Some((x.item_id as int, x.start as int, x.end as int)),
            None => None,
        },
        true,
        0,
        f,
    )
}

/// Plans the content layer of the popup window `window` showing `state`
/// without animation, with the selection kept for that window shown, and
/// keeps the layer's selectable texts and rows as the selection's layout
/// (a drag survives when its item is still there). Gives the drawing
/// operations.
pub fn plan_static_layer<N: Fn(&str) -> i32, D: Fn(&str) -> i32, S: Fn(&str) -> i32, B: Fn(&str) -> i32>(
    selection: &mut SelectionState,
    window: u64,
    state: &AppState,
    now_ms: i64,
    expensive: &Vec<bool>,
    width: i32,
    font_height: i32,
    favorites: &Vec<String>,
    normal: &N,
    bold: &D,
    small: &S,
    small_bold: &B,
) -> (ops: Vec<DrawOp>)
    requires
        all_measurable(*normal, *bold, *small, *small_bold),
        width >= i32::MIN + PADDING_X + HEADER_BUTTON_SIZE,
    ensures
        final(selection).view().layout matches Some(l) && l.window == window
            && l.items == item_mains(popup_lines(state.deep_view(), now_ms, expensive@), popup_lines(state.deep_view(), now_ms, expensive@).len() as int),
        final(selection).view().drag == kept_drag(old(selection).view(), final(selection).view().layout->Some_0),
        all_deterministic(*normal, *bold, *small, *small_bold) ==> ({
            let p = static_layer(
                state.deep_view(),
                now_ms,
                expensive@,
                width as int,
                font_height as int,
                favorites@.map_values(|t: String| t@),
                shown_range(old(selection).view(), window),
                fonts_of(*normal, *bold, *small, *small_bold),
            );
            &&& ops_view(ops@) == p.ops
            &&& final(selection).view().layout->Some_0.items == p.items
            &&& rows_rec(final(selection).view().layout->Some_0.rows) == p.rows
        }),
{
    let lines = build_lines(state, now_ms, expensive);
    let title = header_title(state);
    let shown = selection.current_selection_range(window);
    let layout = header_layout(width);
    let room = sub_i32(width, PADDING_X * 2);
    let content_width = if room >= 40 { room } else { 40 };
    let line_height = add_i32(font_height, LINE_GAP);
    let plan = plan_content_layer(
        title.as_str(),
        &lines,
        width,
        content_width,
        &layout,
        font_height,
        line_height,
        favorites,
        shown,
        true,
        0,
        normal,
        bold,
        small,
        small_bold,
    );
    let ContentPlan { ops, items, rows } = plan;
    let kept = SelectableLayout { window, items, rows };
    proof {
        assert(kept.view().items == items@.map_values(|t: String| t@));
    }
    selection.store_selection_layout(kept);
    ops
}

// ---------------------------------------------------------------- rows top to bottom

/// Whether a value lies within the range of `i32`.
pub open spec fn in_i32(x: int) -> bool {
    i32::MIN <= x <= i32::MAX
}

/// The selectable rows lie from top to bottom in order.
pub open spec fn rows_top_down(rows: Seq<(int, int, int, int, int, int, Seq<(int, int)>)>) -> bool {
    forall|i: int, j: int| 0 <= i < j < rows.len() ==> (#[trigger] rows[i]).4 <= (#[trigger] rows[j]).4
}

/// Every row's top lies within `lo..=hi`.
pub open spec fn tops_within(rows: Seq<(int, int, int, int, int, int, Seq<(int, int)>)>, lo: int, hi: int) -> bool {
    forall|i: int| 0 <= i < rows.len() ==> lo <= (#[trigger] rows[i]).4 <= hi
}

proof fn lemma_step_y(y: int, lh: int, k: int)
    requires
        in_i32(y),
        lh >= 0,
        k >= 0,
    ensures
        in_i32(step_y(y, lh, k)),
        y <= step_y(y, lh, k),
        forall|j: int| 0 <= j <= k ==> #[trigger] step_y(y, lh, j) <= step_y(y, lh, k),
    decreases k,
{
    if k > 0 {
        lemma_step_y(y, lh, k - 1);
        assert forall|j: int| 0 <= j <= k implies #[trigger] step_y(y, lh, j) <= step_y(y, lh, k) by {
            if j < k {
                assert(step_y(y, lh, j) <= step_y(y, lh, k - 1));
            }
        }
    }
}

proof fn lemma_top_down_concat(
    x: Seq<(int, int, int, int, int, int, Seq<(int, int)>)>,
    z: Seq<(int, int, int, int, int, int, Seq<(int, int)>)>,
    lo: int,
    mid: int,
    hi: int,
)
    requires
        lo <= mid <= hi,
        rows_top_down(x),
        rows_top_down(z),
        tops_within(x, lo, mid),
        tops_within(z, mid, hi),
    ensures
        rows_top_down(x + z),
        tops_within(x + z, lo, hi),
{
    assert forall|i: int, j: int| 0 <= i < j < (x + z).len() implies (#[trigger] (x + z)[i]).4 <= (#[trigger] (x + z)[j]).4 by {
        if j < x.len() {
        } else if i < x.len() {
            assert((x + z)[j] == z[j - x.len()]);
        } else {
            assert((x + z)[i] == z[i - x.len()]);
            assert((x + z)[j] == z[j - x.len()]);
        }
    }
    assert forall|i: int| 0 <= i < (x + z).len() implies lo <= (#[trigger] (x + z)[i]).4 <= hi by {
        if i >= x.len() {
            assert((x + z)[i] == z[i - x.len()]);
        }
    }
}

proof fn lemma_item_rows_fold(
    rows: Seq<(Seq<char>, int, int)>,
    k: int,
    main: Seq<char>,
    fav: Seq<(int, int)>,
    sel: Option<(int, int)>,
    id: int,
    capture: bool,
    y: int,
    line_x: int,
    lh: int,
    f: FontWidths,
)
    requires
        in_i32(y),
        lh >= 0,
        0 <= k,
    ensures
        rows_top_down(item_rows_fold(rows, k, main, fav, sel, id, capture, y, line_x, lh, f).1),
        tops_within(item_rows_fold(rows, k, main, fav, sel, id, capture, y, line_x, lh, f).1, y, step_y(y, lh, k)),
    decreases k,
{
    if k > 0 {
        lemma_item_rows_fold(rows, k - 1, main, fav, sel, id, capture, y, line_x, lh, f);
        lemma_step_y(y, lh, k);
        lemma_step_y(y, lh, k - 1);
        let (o, r) = item_rows_fold(rows, k - 1, main, fav, sel, id, capture, y, line_x, lh, f);
        if capture {
            let row = selectable_row(id, rows[k - 1], line_x, step_y(y, lh, k - 1), lh, f.normal);
            assert(r.push(row) == r + seq![row]);
            lemma_top_down_concat(r, seq![row], y, step_y(y, lh, k - 1), step_y(y, lh, k));
        }
    }
}

proof fn lemma_line_plan_top_down(st: PlanState, line: LineV, c: LayerCtx)
    requires
        in_i32(st.y),
        c.lh >= 0,
        rows_top_down(st.rows),
        tops_within(st.rows, i32::MIN as int, st.y),
    ensures
        in_i32(line_plan(st, line, c).y),
        st.y <= line_plan(st, line, c).y,
        rows_top_down(line_plan(st, line, c).rows),
        tops_within(line_plan(st, line, c).rows, i32::MIN as int, line_plan(st, line, c).y),
{
    let next = line_plan(st, line, c);
    match line {
        LineV::Heading(t) => {
            let rows = pieces(normalized(t), wrap_rows(t, c.cw, c.f.bold));
            lemma_step_y(st.y, c.lh, rows.len() as int);
        },
        LineV::Text(t) => {
            let rows = pieces(normalized(t), wrap_rows(t, c.cw, c.f.normal));
            lemma_step_y(st.y, c.lh, rows.len() as int);
        },
        LineV::MenuItem { main, suffix_segments } => {
            let fav = favorite_ranges(main, c.favorites);
            let id = st.items.len() as int;
            let sel = if c.capture {
                match c.selection {
                    Some(x) => if x.0 == id { Some((x.1, x.2)) } else { None },
                    None => None,
                }
            } else {
                None
            };
            let sw = styled_width(main, suffix_segments, c.bullet, c.f.normal, c.f.small, c.f.small_bold);
            if sw <= c.cw {
                let (o, r, y) = item_fit(main, suffix_segments, fav, sel, id, c.capture, st.y, c.cw, c.lh, c.bullet, c.f);
                lemma_top_down_concat(st.rows, r, i32::MIN as int, st.y, y);
            } else {
                let wrapped = pieces(normalized(main), wrap_rows(main, c.main_wrap, c.f.normal));
                let line_x = sat_i32(PADDING_X + c.bullet);
                lemma_item_rows_fold(wrapped, wrapped.len() as int, main, fav, sel, id, c.capture, st.y, line_x, c.lh, c.f);
                lemma_step_y(st.y, c.lh, wrapped.len() as int);
                let y1 = rows_end_y(wrapped.len() as int, st.y, c.lh);
                let plain = flattened(suffix_segments);
                if suffix_segments.len() > 0 && plain.len() > 0 {
                    let srows = pieces(normalized(plain), wrap_rows(plain, c.cw, c.f.small));
                    lemma_step_y(y1, c.lh, srows.len() as int);
                }
                let (o, r, y) = item_wrap(main, suffix_segments, fav, sel, id, c.capture, st.y, c.cw, c.lh, c.bullet, c.main_wrap, c.f);
                lemma_top_down_concat(st.rows, r, i32::MIN as int, st.y, y);
            }
        },
        LineV::Spacer => {},
    }
}

proof fn lemma_plan_fold_top_down(lines: Seq<LineV>, k: int, st: PlanState, c: LayerCtx)
    requires
        in_i32(st.y),
        c.lh >= 0,
        rows_top_down(st.rows),
        tops_within(st.rows, i32::MIN as int, st.y),
        k >= 0,
    ensures
        in_i32(plan_fold(lines, k, st, c).y),
        rows_top_down(plan_fold(lines, k, st, c).rows),
        tops_within(plan_fold(lines, k, st, c).rows, i32::MIN as int, plan_fold(lines, k, st, c).y),
    decreases k,
{
    if k > 0 {
        lemma_plan_fold_top_down(lines, k - 1, st, c);
        lemma_line_plan_top_down(plan_fold(lines, k - 1, st, c), lines[k - 1], c);
    }
}

/// With a line height that is not negative, the selectable rows of a
/// planned layer lie from top to bottom in order.
pub(crate) proof fn lemma_layer_rows_top_down(
    title: Seq<char>,
    lines: Seq<LineV>,
    width: int,
    cw: int,
    layout: HeaderLayout,
    font_height: int,
    lh: int,
    favorites: Seq<Seq<char>>,
    selection: Option<(int, int, int)>,
    capture: bool,
    y_offset: int,
    f: FontWidths,
)
    requires
        lh >= 0,
    ensures
        rows_top_down(layer_plan(title, lines, width, cw, layout, font_height, lh, favorites, selection, capture, y_offset, f).rows),
{
    let bullet = (f.normal)(bullet_prefix());
    let c = LayerCtx {
        cw,
        lh,
        bullet,
        main_wrap: larger(sat_i32(cw - bullet), 24),
        favorites,
        selection,
        capture,
        f,
    };
    let st0 = PlanState {
        ops: seq![title_op(title, width, layout, font_height, y_offset, f)],
        y: sat_i32(HEADER_HEIGHT + PADDING_Y + y_offset),
        items: Seq::empty(),
        rows: Seq::empty(),
    };
    lemma_plan_fold_top_down(lines, lines.len() as int, st0, c);
}

} // verus!
