//! How large the popup is: the widest and tallest of today's cached menus
//! (a budget kept between paints while nothing it depends on changes),
//! the current menu's own measurements, and the popup's size limits.
//!
//! Text is measured by the caller; these functions take the measurements.

use vstd::prelude::*;
use crate::popup_logic::{fits_i32, HEADER_HEIGHT, PADDING_X};
use crate::restaurant::str_eq;
use crate::settings::{Settings, SettingsV};
use crate::text::owned;

verus! {

/// Vertical padding of the popup.
pub const PADDING_Y: i32 = 10;
/// Space between two lines.
pub const LINE_GAP: i32 = 2;
/// Widest popup.
pub const POPUP_MAX_WIDTH: i32 = 525;
/// Narrowest popup.
pub const POPUP_MIN_WIDTH: i32 = 320;
/// Widest text area.
pub const POPUP_MAX_CONTENT_WIDTH: i32 = 501;
/// Narrowest text area.
pub const POPUP_MIN_CONTENT_WIDTH: i32 = 296;
/// Most lines the popup grows to.
pub const MAX_DYNAMIC_LINES: usize = 35;

/// How wide and tall a menu's lines are when laid out.
#[derive(Clone, Copy, Debug, PartialEq, Eq, Structural)]
pub struct LineLayoutMetrics {
    pub required_content_width: i32,
    pub wrapped_line_count: usize,
}

/// The largest text width and wrapped line count of today's cached menus
/// (none when there is no such menu).
#[derive(Clone, Copy, Debug, PartialEq, Eq, Structural)]
pub struct CachedLayoutBudget {
    pub max_wrapped_lines: Option<usize>,
    pub max_content_width_px: Option<i32>,
}

/// The budget with one more menu's measurements taken in.
pub open spec fn merged(b: CachedLayoutBudget, m: LineLayoutMetrics) -> CachedLayoutBudget {
    CachedLayoutBudget {
        max_wrapped_lines: Some(match b.max_wrapped_lines {
            Some(p) => if p >= m.wrapped_line_count { p } else { m.wrapped_line_count },
            None => m.wrapped_line_count,
        }),
        max_content_width_px: Some(match b.max_content_width_px {
            Some(p) => if p >= m.required_content_width { p } else { m.required_content_width },
            None => m.required_content_width,
        }),
    }
}

/// Takes one more of today's cached menus into the budget.
pub fn merge_layout_budget(budget: CachedLayoutBudget, metrics: LineLayoutMetrics) -> (r: CachedLayoutBudget)
    ensures
        r == merged(budget, metrics),
{
    CachedLayoutBudget {
        max_wrapped_lines: Some(match budget.max_wrapped_lines {
            Some(p) => if p >= metrics.wrapped_line_count { p } else { metrics.wrapped_line_count },
            None => metrics.wrapped_line_count,
        }),
        max_content_width_px: Some(match budget.max_content_width_px {
            Some(p) => if p >= metrics.required_content_width { p } else { metrics.required_content_width },
            None => metrics.required_content_width,
        }),
    }
}

/// `v` kept within `lo..=hi`.
pub open spec fn clamp_to(v: int, lo: int, hi: int) -> int {
    if v < lo { lo } else if v > hi { hi } else { v }
}

/// The text width the popup is laid out at: the budget's width (the
/// current menu's own width without one), within the popup's limits.
pub open spec fn content_width(budget: CachedLayoutBudget, current: LineLayoutMetrics) -> int {
    let w = match budget.max_content_width_px {
        Some(w) => w as int,
        None => current.required_content_width as int,
    };
    clamp_to(w, POPUP_MIN_CONTENT_WIDTH as int, POPUP_MAX_CONTENT_WIDTH as int)
}

/// The text width the popup is laid out at.
pub fn target_content_width(budget: CachedLayoutBudget, current: LineLayoutMetrics) -> (r: i32)
    ensures
        r as int == content_width(budget, current),
{
    let w = match budget.max_content_width_px {
        Some(w) => w,
        None => current.required_content_width,
    };
    if w < POPUP_MIN_CONTENT_WIDTH {
        POPUP_MIN_CONTENT_WIDTH
    } else if w > POPUP_MAX_CONTENT_WIDTH {
        POPUP_MAX_CONTENT_WIDTH
    } else {
        w
    }
}

/// How many lines tall the popup is: the budget's line count, but not
/// fewer than the current menu needs at the chosen width (that count alone
/// without a budget), and at most the line limit.
pub open spec fn target_lines(budget: CachedLayoutBudget, current_wrapped_lines: usize) -> int {
    let n = match budget.max_wrapped_lines {
        Some(b) => if b >= current_wrapped_lines { b as int } else { current_wrapped_lines as int },
        None => current_wrapped_lines as int,
    };
    if n <= MAX_DYNAMIC_LINES { n } else { MAX_DYNAMIC_LINES as int }
}

/// The popup's width and height: the text width plus padding within the
/// width limits; the header, the lines (`font_height` plus the line gap
/// each) and padding, at least 120 pixels below the header.
pub open spec fn size_of_popup(content_width: i32, budget: CachedLayoutBudget, current_wrapped_lines: usize, font_height: i32) -> (int, int) {
    let height = HEADER_HEIGHT + target_lines(budget, current_wrapped_lines) * (font_height + LINE_GAP) + PADDING_Y * 2;
    (
        clamp_to(content_width + PADDING_X * 2, POPUP_MIN_WIDTH as int, POPUP_MAX_WIDTH as int),
        if height >= HEADER_HEIGHT + 120 { height } else { HEADER_HEIGHT + 120 },
    )
}

/// Whether the size arithmetic stays in the `i32` range.
pub open spec fn size_fits(content_width: i32, budget: CachedLayoutBudget, current_wrapped_lines: usize, font_height: i32) -> bool {
    let line_height = font_height + LINE_GAP;
    let lines = target_lines(budget, current_wrapped_lines);
    &&& fits_i32(line_height)
    &&& fits_i32(lines * line_height)
    &&& fits_i32(HEADER_HEIGHT + lines * line_height)
    &&& fits_i32(HEADER_HEIGHT + lines * line_height + PADDING_Y * 2)
    &&& fits_i32(content_width + PADDING_X * 2)
}

/// The popup's width and height for a text width, the budget, the number
/// of lines the current menu wraps to at that width, and the font height.
pub fn popup_size(content_width: i32, budget: CachedLayoutBudget, current_wrapped_lines: usize, font_height: i32) -> (r: (i32, i32))
    requires
        size_fits(content_width, budget, current_wrapped_lines, font_height),
    ensures
        (r.0 as int, r.1 as int) == size_of_popup(content_width, budget, current_wrapped_lines, font_height),
{
    let mut lines: usize = match budget.max_wrapped_lines {
        Some(b) => if b >= current_wrapped_lines { b } else { current_wrapped_lines },
        None => current_wrapped_lines,
    };
    if lines > MAX_DYNAMIC_LINES {
        lines = MAX_DYNAMIC_LINES;
    }
    let line_height = font_height + LINE_GAP;
    let lines32 = lines as i32;
    let height = HEADER_HEIGHT + lines32 * line_height + PADDING_Y * 2;
    let padded = content_width + PADDING_X * 2;
    let width = if padded < POPUP_MIN_WIDTH {
        POPUP_MIN_WIDTH
    } else if padded > POPUP_MAX_WIDTH {
        POPUP_MAX_WIDTH
    } else {
        padded
    };
    (width, if height >= HEADER_HEIGHT + 120 { height } else { HEADER_HEIGHT + 120 })
}

// ---------------------------------------------------------------- the budget cache

/// What the budget depends on besides the cached menus: the day, the
/// language, the theme, the screen's DPI and the display settings.
pub struct PopupLineBudgetKey {
    pub today_key: String,
    pub language: String,
    pub theme: String,
    pub dpi_y: i32,
    pub enable_antell_restaurants: bool,
    pub show_prices: bool,
    pub show_student_price: bool,
    pub show_staff_price: bool,
    pub show_guest_price: bool,
    pub hide_expensive_student_meals: bool,
    pub show_allergens: bool,
    pub highlight_gluten_free: bool,
    pub highlight_veg: bool,
    pub highlight_lactose_free: bool,
}

/// A budget key as plain values.
pub struct BudgetKeyV {
    pub today_key: Seq<char>,
    pub language: Seq<char>,
    pub theme: Seq<char>,
    pub dpi_y: i32,
    pub flags: Seq<bool>,
}

impl PopupLineBudgetKey {
    pub open spec fn view(&self) -> BudgetKeyV {
        BudgetKeyV {
            today_key: self.today_key@,
            language: self.language@,
            theme: self.theme@,
            dpi_y: self.dpi_y,
            flags: seq![
                self.enable_antell_restaurants,
                self.show_prices,
                self.show_student_price,
                self.show_staff_price,
                self.show_guest_price,
                self.hide_expensive_student_meals,
                self.show_allergens,
                self.highlight_gluten_free,
                self.highlight_veg,
                self.highlight_lactose_free,
            ],
        }
    }
}

/// The budget key of the settings on a day at a DPI.
pub open spec fn budget_key_of(s: SettingsV, today: Seq<char>, dpi_y: i32) -> BudgetKeyV {
    BudgetKeyV {
        today_key: today,
        language: s.language,
        theme: s.theme,
        dpi_y,
        flags: seq![
            s.enable_antell_restaurants,
            s.show_prices,
            s.show_student_price,
            s.show_staff_price,
            s.show_guest_price,
            s.hide_expensive_student_meals,
            s.show_allergens,
            s.highlight_gluten_free,
            s.highlight_veg,
            s.highlight_lactose_free,
        ],
    }
}

/// The budget key of the settings on a day at a DPI.
pub fn line_budget_key(settings: &Settings, today_key: &str, dpi_y: i32) -> (r: PopupLineBudgetKey)
    ensures
        r.view() == budget_key_of(settings.deep_view(), today_key@, dpi_y),
{
    PopupLineBudgetKey {
        today_key: owned(today_key),
        language: settings.language.clone(),
        theme: settings.theme.clone(),
        dpi_y,
        enable_antell_restaurants: settings.enable_antell_restaurants,
        show_prices: settings.show_prices,
        show_student_price: settings.show_student_price,
        show_staff_price: settings.show_staff_price,
        show_guest_price: settings.show_guest_price,
        hide_expensive_student_meals: settings.hide_expensive_student_meals,
        show_allergens: settings.show_allergens,
        highlight_gluten_free: settings.highlight_gluten_free,
        highlight_veg: settings.highlight_veg,
        highlight_lactose_free: settings.highlight_lactose_free,
    }
}

/// When a restaurant's cached menu was last written (`-1` without one).
pub struct RestaurantCacheSignature {
    pub code: String,
    pub mtime_ms: i64,
}

/// Signatures as plain values.
pub open spec fn signatures_view(v: Seq<RestaurantCacheSignature>) -> Seq<(Seq<char>, i64)> {
    v.map_values(|s: RestaurantCacheSignature| (s.code@, s.mtime_ms))
}

/// The budget kept from the last paint, with what it was computed for.
pub struct LineBudgetCache {
    pub entry: Option<(PopupLineBudgetKey, Vec<RestaurantCacheSignature>, CachedLayoutBudget)>,
}

/// What a budget cache holds, as plain values.
pub open spec fn cache_view(c: LineBudgetCache) -> Option<(BudgetKeyV, Seq<(Seq<char>, i64)>, CachedLayoutBudget)> {
    match c.entry {
        Some((k, s, b)) => Some((k.view(), signatures_view(s@), b)),
        None => None,
    }
}

fn keys_equal(a: &PopupLineBudgetKey, b: &PopupLineBudgetKey) -> (r: bool)
    ensures
        r == (a.view() == b.view()),
{
    let r = str_eq(a.today_key.as_str(), b.today_key.as_str()) && str_eq(a.language.as_str(), b.language.as_str())
        && str_eq(a.theme.as_str(), b.theme.as_str()) && a.dpi_y == b.dpi_y
        && a.enable_antell_restaurants == b.enable_antell_restaurants && a.show_prices == b.show_prices
        && a.show_student_price == b.show_student_price && a.show_staff_price == b.show_staff_price
        && a.show_guest_price == b.show_guest_price
        && a.hide_expensive_student_meals == b.hide_expensive_student_meals
        && a.show_allergens == b.show_allergens && a.highlight_gluten_free == b.highlight_gluten_free
        && a.highlight_veg == b.highlight_veg && a.highlight_lactose_free == b.highlight_lactose_free;
    proof {
        if !r && a.view() == b.view() {
            assert(a.view().flags[0] == b.view().flags[0]);
            assert(a.view().flags[1] == b.view().flags[1]);
            assert(a.view().flags[2] == b.view().flags[2]);
            assert(a.view().flags[3] == b.view().flags[3]);
            assert(a.view().flags[4] == b.view().flags[4]);
            assert(a.view().flags[5] == b.view().flags[5]);
            assert(a.view().flags[6] == b.view().flags[6]);
            assert(a.view().flags[7] == b.view().flags[7]);
            assert(a.view().flags[8] == b.view().flags[8]);
            assert(a.view().flags[9] == b.view().flags[9]);
        }
        if r {
            assert(a.view().flags =~= b.view().flags);
        }
    }
    r
}

fn signatures_equal(a: &Vec<RestaurantCacheSignature>, b: &Vec<RestaurantCacheSignature>) -> (r: bool)
    ensures
        r == (signatures_view(a@) == signatures_view(b@)),
{
    if a.len() != b.len() {
        proof {
            if signatures_view(a@) == signatures_view(b@) {
                assert(signatures_view(a@).len() == signatures_view(b@).len());
            }
        }
        return false;
    }
    let mut i: usize = 0;
    while i < a.len()
        invariant
            i <= a.len(),
            a.len() == b.len(),
            forall|j: int| 0 <= j < i ==> signatures_view(a@)[j] == signatures_view(b@)[j],
        decreases a.len() - i,
    {
        if !(str_eq(a[i].code.as_str(), b[i].code.as_str()) && a[i].mtime_ms == b[i].mtime_ms) {
            proof {
                assert(signatures_view(a@)[i as int] != signatures_view(b@)[i as int]);
            }
            return false;
        }
        i += 1;
    }
    assert(signatures_view(a@) =~= signatures_view(b@));
    true
}

/// What a budget cache answers for a key and signatures: its budget when
/// both match what it was computed for.
pub open spec fn budget_lookup(
    c: Option<(BudgetKeyV, Seq<(Seq<char>, i64)>, CachedLayoutBudget)>,
    key: BudgetKeyV,
    signatures: Seq<(Seq<char>, i64)>,
) -> Option<CachedLayoutBudget> {
    match c {
        Some((k, s, b)) => if k == key && s == signatures { Some(b) } else { None },
        None => None,
    }
}

impl LineBudgetCache {
    /// An empty cache.
    pub fn new() -> (r: Self)
        ensures
            cache_view(r) is None,
    {
        LineBudgetCache { entry: None }
    }

    /// The kept budget, when it was computed for this key and these cache
    /// signatures.
    pub fn cached_line_budget(&self, key: &PopupLineBudgetKey, signatures: &Vec<RestaurantCacheSignature>) -> (r: Option<CachedLayoutBudget>)
        ensures
            r == budget_lookup(cache_view(*self), key.view(), signatures_view(signatures@)),
    {
        match &self.entry {
            Some((k, s, b)) => {
                if keys_equal(k, key) && signatures_equal(s, signatures) {
                    Some(*b)
                } else {
                    None
                }
            },
            None => None,
        }
    }

    /// Keeps a budget with what it was computed for.
    pub fn update_line_budget_cache(&mut self, key: PopupLineBudgetKey, signatures: Vec<RestaurantCacheSignature>, budget: CachedLayoutBudget)
        ensures
            cache_view(*final(self)) == Some((key.view(), signatures_view(signatures@), budget)),
    {
        self.entry = Some((key, signatures, budget));
    }
}

} // verus!
