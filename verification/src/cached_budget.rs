//! The layout budget of today's cached menus (every restaurant's cached
//! result that is today's menu, laid out at the widest text area, the
//! widest and tallest kept), and the popup's size from it and the menu
//! shown. The caller reads the results back from disk and measures text.

use vstd::prelude::*;
use crate::fetch::{FetchOutput, FetchOutputV};
use crate::popup_lines::{build_lines, cached_popup_state, is_today_valid_cache, popup_lines, popup_state_from_cached_result, LineV};
use crate::app_state::{AppState, AppStateV};
use crate::popup_logic::{fits_i32, HEADER_HEIGHT, PADDING_X};
use crate::popup_size::{
    content_width, merge_layout_budget, merged, popup_size, size_fits, size_of_popup, target_content_width, target_lines,
    CachedLayoutBudget, LineLayoutMetrics, LINE_GAP, MAX_DYNAMIC_LINES, PADDING_Y, POPUP_MAX_CONTENT_WIDTH, POPUP_MAX_WIDTH,
    POPUP_MIN_WIDTH,
};
use crate::restaurant::Restaurant;
use crate::settings::{Settings, SettingsV};
use crate::text_layout::{deterministic, lines_layout, measurable, measure_lines_layout, widths, FontWidths};

verus! {

/// A cached result read back for one restaurant, with the expensive-meal
/// marks of its menus (one per menu, in order).
pub struct CachedCandidate {
    pub restaurant: Restaurant,
    pub parsed: FetchOutput,
    pub expensive: Vec<bool>,
}

/// Whether a cached result counts towards the budget: it succeeded and is
/// today's menu.
pub open spec fn counts_today(r: FetchOutputV, today: Seq<char>) -> bool {
    r.ok && r.payload_date.len() > 0 && r.payload_date == today
}

/// The lines the popup would show for a cached result.
pub open spec fn candidate_lines(s: SettingsV, c: CachedCandidate, today: Seq<char>) -> Seq<LineV> {
    popup_lines(cached_popup_state(s, c.restaurant, c.parsed.deep_view(), today), 0, c.expensive@)
}

/// Measurements as the metrics type.
pub open spec fn as_metrics(p: (int, int)) -> LineLayoutMetrics {
    LineLayoutMetrics { required_content_width: p.0 as i32, wrapped_line_count: p.1 as usize }
}

/// The budget of the first `k` cached results: each of today's menus laid
/// out at the widest text area, the largest width and row count kept.
pub open spec fn budget_fold(s: SettingsV, cands: Seq<CachedCandidate>, today: Seq<char>, f: FontWidths, k: int) -> CachedLayoutBudget
    decreases k,
{
    if k <= 0 {
        CachedLayoutBudget { max_wrapped_lines: None, max_content_width_px: None }
    } else {
        let b = budget_fold(s, cands, today, f, k - 1);
        let c = cands[k - 1];
        if counts_today(c.parsed.deep_view(), today) {
            merged(b, as_metrics(lines_layout(candidate_lines(s, c, today), POPUP_MAX_CONTENT_WIDTH as int, f)))
        } else {
            b
        }
    }
}

/// The budget of today's cached menus: the results the caller read back,
/// those that are today's menus laid out at the widest text area. Whatever
/// the widths, the budget is empty exactly when no result is today's menu.
pub fn max_today_cached_layout_budget<N: Fn(&str) -> i32, D: Fn(&str) -> i32, S: Fn(&str) -> i32, B: Fn(&str) -> i32>(
    settings: &Settings,
    today_key: &str,
    candidates: &Vec<CachedCandidate>,
    normal: &N,
    bold: &D,
    small: &S,
    small_bold: &B,
) -> (r: CachedLayoutBudget)
    requires
        measurable(*normal),
        measurable(*bold),
        measurable(*small),
        measurable(*small_bold),
    ensures
        r.max_wrapped_lines is None <==> r.max_content_width_px is None,
        r.max_wrapped_lines is None <==> forall|i: int|
            0 <= i < candidates@.len() ==> !counts_today(#[trigger] candidates@[i].parsed.deep_view(), today_key@),
        deterministic(*normal) && deterministic(*bold) && deterministic(*small) && deterministic(*small_bold) ==> r
            == budget_fold(
            settings.deep_view(),
            candidates@,
            today_key@,
            FontWidths {
                normal: widths(*normal),
                bold: widths(*bold),
                small: widths(*small),
                small_bold: widths(*small_bold),
            },
            candidates@.len() as int,
        ),
{
    let ghost f = FontWidths {
        normal: widths(*normal),
        bold: widths(*bold),
        small: widths(*small),
        small_bold: widths(*small_bold),
    };
    let ghost all = deterministic(*normal) && deterministic(*bold) && deterministic(*small) && deterministic(*small_bold);
    let mut budget = CachedLayoutBudget { max_wrapped_lines: None, max_content_width_px: None };
    let mut i: usize = 0;
    while i < candidates.len()
        invariant
            i <= candidates.len(),
            measurable(*normal),
            measurable(*bold),
            measurable(*small),
            measurable(*small_bold),
            f == (FontWidths {
                normal: widths(*normal),
                bold: widths(*bold),
                small: widths(*small),
                small_bold: widths(*small_bold),
            }),
            all == (deterministic(*normal) && deterministic(*bold) && deterministic(*small) && deterministic(*small_bold)),
            budget.max_wrapped_lines is None <==> budget.max_content_width_px is None,
            budget.max_wrapped_lines is None <==> forall|j: int|
                0 <= j < i ==> !counts_today(#[trigger] candidates@[j].parsed.deep_view(), today_key@),
            all ==> budget == budget_fold(settings.deep_view(), candidates@, today_key@, f, i as int),
        decreases candidates.len() - i,
    {
        let c = &candidates[i];
        if c.parsed.ok && is_today_valid_cache(&c.parsed, today_key) {
            let state = popup_state_from_cached_result(settings, c.restaurant, &c.parsed, today_key);
            let lines = build_lines(&state, 0, &c.expensive);
            let metrics = measure_lines_layout(&lines, POPUP_MAX_CONTENT_WIDTH, normal, bold, small, small_bold);
            proof {
                if all {
                    assert(lines.deep_view() == candidate_lines(settings.deep_view(), *c, today_key@));
                    assert(metrics == as_metrics(lines_layout(lines.deep_view(), POPUP_MAX_CONTENT_WIDTH as int, f)));
                }
            }
            budget = merge_layout_budget(budget, metrics);
        }
        i += 1;
    }
    budget
}

// ---------------------------------------------------------------- the popup's size

fn size_fits_exec(content_width: i32, budget: CachedLayoutBudget, current_wrapped_lines: usize, font_height: i32) -> (r: bool)
    ensures
        r == size_fits(content_width, budget, current_wrapped_lines, font_height),
{
    let mut lines: usize = match budget.max_wrapped_lines {
        Some(b) => if b >= current_wrapped_lines { b } else { current_wrapped_lines },
        None => current_wrapped_lines,
    };
    if lines > MAX_DYNAMIC_LINES {
        lines = MAX_DYNAMIC_LINES;
    }
    assert(lines as int == target_lines(budget, current_wrapped_lines));
    let line_height: i64 = font_height as i64 + LINE_GAP as i64;
    let lines64: i64 = lines as i64;
    assert(-2147483648 - 2 <= line_height <= 2147483647 + 2);
    assert(0 <= lines64 <= 35);
    assert(-100_000_000_000 <= lines64 * line_height <= 100_000_000_000) by (nonlinear_arith)
        requires
            -2147483650 <= line_height <= 2147483649,
            0 <= lines64 <= 35,
    ;
    let body: i64 = lines64 * line_height;
    let with_header: i64 = HEADER_HEIGHT as i64 + body;
    let total: i64 = with_header + PADDING_Y as i64 * 2;
    let wide: i64 = content_width as i64 + PADDING_X as i64 * 2;
    let ok = |v: i64| -> (b: bool)
        ensures
            b == fits_i32(v as int),
    { i32::MIN as i64 <= v && v <= i32::MAX as i64 };
    ok(line_height) && ok(body) && ok(with_header) && ok(total) && ok(wide)
}

/// The popup's size for the shown state: the menu's lines laid out at the
/// widest text area, the text width from the budget (or those lines) within
/// the limits, the lines laid out again at that width, and the size from
/// those rows and the font height; none when that arithmetic would leave
/// the range of `i32`.
pub open spec fn desired_size_of(st: AppStateV, now_ms: i64, expensive: Seq<bool>, budget: CachedLayoutBudget, font_height: i32, f: FontWidths) -> Option<(int, int)> {
    let lines = popup_lines(st, now_ms, expensive);
    let current = as_metrics(lines_layout(lines, POPUP_MAX_CONTENT_WIDTH as int, f));
    let cw = content_width(budget, current);
    let wrapped = as_metrics(lines_layout(lines, cw, f)).wrapped_line_count;
    if size_fits(cw as i32, budget, wrapped, font_height) {
        Some(size_of_popup(cw as i32, budget, wrapped, font_height))
    } else {
        None
    }
}

/// The popup's width and height for the shown state, given the budget of
/// today's cached menus and the normal font's height. Whatever the widths,
/// the size is within the popup's limits, and it is there whenever the font
/// height is within fifty million pixels; with deterministic measuring it
/// is as `desired_size_of` says.
pub fn desired_size<N: Fn(&str) -> i32, D: Fn(&str) -> i32, S: Fn(&str) -> i32, B: Fn(&str) -> i32>(
    state: &AppState,
    now_ms: i64,
    expensive: &Vec<bool>,
    budget: CachedLayoutBudget,
    font_height: i32,
    normal: &N,
    bold: &D,
    small: &S,
    small_bold: &B,
) -> (r: Option<(i32, i32)>)
    requires
        measurable(*normal),
        measurable(*bold),
        measurable(*small),
        measurable(*small_bold),
    ensures
        r matches Some(p) ==> POPUP_MIN_WIDTH <= p.0 <= POPUP_MAX_WIDTH && p.1 >= HEADER_HEIGHT + 120,
        -50_000_000 <= font_height <= 50_000_000 ==> r is Some,
        deterministic(*normal) && deterministic(*bold) && deterministic(*small) && deterministic(*small_bold) ==> match r {
            Some(p) => desired_size_of(state.deep_view(), now_ms, expensive@, budget, font_height, FontWidths {
                normal: widths(*normal),
                bold: widths(*bold),
                small: widths(*small),
                small_bold: widths(*small_bold),
            }) == Some((p.0 as int, p.1 as int)),
            None => desired_size_of(state.deep_view(), now_ms, expensive@, budget, font_height, FontWidths {
                normal: widths(*normal),
                bold: widths(*bold),
                small: widths(*small),
                small_bold: widths(*small_bold),
            }) is None,
        },
{
    let lines = build_lines(state, now_ms, expensive);
    let current = measure_lines_layout(&lines, POPUP_MAX_CONTENT_WIDTH, normal, bold, small, small_bold);
    let cw = target_content_width(budget, current);
    let wrapped = measure_lines_layout(&lines, cw, normal, bold, small, small_bold);
    proof {
        if -50_000_000 <= font_height <= 50_000_000 {
            let n = target_lines(budget, wrapped.wrapped_line_count);
            assert(0 <= n <= 35);
            assert(-50_000_000 * 35 <= n * (font_height + LINE_GAP) <= 50_000_002 * 35) by (nonlinear_arith)
                requires
                    0 <= n <= 35,
                    -50_000_000 <= font_height <= 50_000_000,
            ;
        }
    }
    if size_fits_exec(cw, budget, wrapped.wrapped_line_count, font_height) {
        Some(popup_size(cw, budget, wrapped.wrapped_line_count, font_height))
    } else {
        None
    }
}

} // verus!
