//! The lines the popup shows for the application state: status notes, the
//! date, and each shown menu group's heading and items.

use vstd::prelude::*;
use crate::app_state::{sat_sub, saturating_sub_i64, AppState, AppStateV, FetchStatus};
use crate::format::{
    date_and_time_line, date_time_line, decimal, heading, label_text, menu_heading, renderable,
    renderable_menu_components, text_for, u32_to_decimal,
};
use crate::fetch::{FetchOutput, FetchOutputV};
use crate::model::{clone_menu_option, MenuGroup, MenuGroupV, TodayMenu, TodayMenuV};
use crate::normalize::normalized;
use crate::popup_logic::{build_suffix_segments, highlighted, runs};
use crate::price::PriceGroups;
use crate::restaurant::{available_restaurants, lemma_position_of, position_in, position_of, restaurants, str_eq, Provider, Restaurant};
use crate::settings::{Settings, SettingsV};
use crate::text::{chars_to_string, owned, str_chars};

verus! {

/// How long a fetch must have been running before the popup says so.
pub const LOADING_HINT_DELAY_MS: i64 = 250;

/// One line of the popup.
pub enum Line {
    Heading(String),
    Text(String),
    MenuItem { main: String, suffix_segments: Vec<(String, bool)> },
    Spacer,
}

/// A popup line as plain values.
pub enum LineV {
    Heading(Seq<char>),
    Text(Seq<char>),
    MenuItem { main: Seq<char>, suffix_segments: Seq<(Seq<char>, bool)> },
    Spacer,
}

/// The plain values of suffix segments.
pub open spec fn segments_view(v: Seq<(String, bool)>) -> Seq<(Seq<char>, bool)> {
    v.map_values(|x: (String, bool)| (x.0@, x.1))
}

impl DeepView for Line {
    type V = LineV;

    open spec fn deep_view(&self) -> LineV {
        match self {
            Line::Heading(t) => LineV::Heading(t@),
            Line::Text(t) => LineV::Text(t@),
            Line::MenuItem { main, suffix_segments } => LineV::MenuItem {
                main: main@,
                suffix_segments: segments_view(suffix_segments@),
            },
            Line::Spacer => LineV::Spacer,
        }
    }
}

// ---------------------------------------------------------------- menu groups

/// The price audiences the settings show; group names are always shown.
pub open spec fn price_groups_for(s: SettingsV) -> PriceGroups {
    PriceGroups { student: s.show_student_price, staff: s.show_staff_price, guest: s.show_guest_price, names: true }
}

/// The suffix segments of a menu item: none when allergens are hidden or
/// the item has no suffix, else the suffix's runs with their highlights.
pub open spec fn item_segments(suffix: Seq<char>, s: SettingsV) -> Seq<(Seq<char>, bool)> {
    if !s.show_allergens || suffix.len() == 0 {
        Seq::empty()
    } else {
        runs(suffix).map_values(
            |run: Seq<char>| (run, highlighted(run, s.highlight_gluten_free, s.highlight_veg, s.highlight_lactose_free)))
    }
}

/// The item lines of main/suffix pairs.
pub open spec fn item_lines(items: Seq<(Seq<char>, Seq<char>)>, s: SettingsV) -> Seq<LineV> {
    items.map_values(|p: (Seq<char>, Seq<char>)| LineV::MenuItem { main: p.0, suffix_segments: item_segments(p.1, s) })
}

/// The lines of one menu group: its heading, then one item per renderable
/// component.
pub open spec fn group_lines(g: MenuGroupV, provider: Provider, s: SettingsV) -> Seq<LineV> {
    seq![LineV::Heading(heading(normalized(g.name), g.price, ""@, provider, s.show_prices, price_groups_for(s)))]
        + item_lines(renderable(g.components), s)
}

/// Whether the group at `i` is left out: Compass menus leave out the groups
/// whose student price is too high (`expensive`) when the settings ask so.
pub open spec fn group_hidden(provider: Provider, s: SettingsV, expensive: Seq<bool>, i: int) -> bool {
    provider == Provider::Compass && s.hide_expensive_student_meals && 0 <= i < expensive.len() && expensive[i]
}

/// The lines of the groups of a menu, in order, leaving out hidden groups.
pub open spec fn menus_lines(menus: Seq<MenuGroupV>, provider: Provider, s: SettingsV, expensive: Seq<bool>) -> Seq<LineV>
    decreases menus.len(),
{
    if menus.len() == 0 {
        Seq::empty()
    } else {
        let p = menus_lines(menus.drop_last(), provider, s, expensive);
        if group_hidden(provider, s, expensive, menus.len() - 1) {
            p
        } else {
            p + group_lines(menus.last(), provider, s)
        }
    }
}

fn push_line(lines: &mut Vec<Line>, line: Line)
    ensures
        final(lines).deep_view() == old(lines).deep_view().push(line.deep_view()),
{
    let ghost before = lines.deep_view();
    let ghost v = line.deep_view();
    lines.push(line);
    assert(lines.deep_view() =~= before.push(v));
}

fn append_item_lines(lines: &mut Vec<Line>, group: &MenuGroup, settings: &Settings)
    ensures
        final(lines).deep_view() == old(lines).deep_view() + item_lines(renderable(group.deep_view().components), settings.deep_view()),
{
    let items = renderable_menu_components(group);
    let ghost s = settings.deep_view();
    let ghost pairs = items@.map_values(|x: (String, String)| (x.0@, x.1@));
    assert(group.components@.map_values(|c: String| c@) =~= group.deep_view().components);
    let ghost start = lines.deep_view();
    let mut k: usize = 0;
    while k < items.len()
        invariant
            k <= items.len(),
            s == settings.deep_view(),
            pairs == items@.map_values(|x: (String, String)| (x.0@, x.1@)),
            lines.deep_view() == start + item_lines(pairs.subrange(0, k as int), s),
        decreases items.len() - k,
    {
        let main = items[k].0.clone();
        let suffix = &items[k].1;
        let segments = if !settings.show_allergens || str_chars(suffix.as_str()).len() == 0 {
            Vec::new()
        } else {
            build_suffix_segments(
                suffix.as_str(),
                settings.highlight_gluten_free,
                settings.highlight_veg,
                settings.highlight_lactose_free,
            )
        };
        assert(segments_view(segments@) == item_segments(pairs[k as int].1, s)) by {
            assert(pairs[k as int] == (items@[k as int].0@, items@[k as int].1@));
            if !settings.show_allergens || suffix@.len() == 0 {
                assert(segments_view(segments@) =~= Seq::<(Seq<char>, bool)>::empty());
            }
        }
        push_line(lines, Line::MenuItem { main, suffix_segments: segments });
        k += 1;
        assert(pairs.subrange(0, k as int) =~= pairs.subrange(0, k - 1).push(pairs[k - 1]));
        assert(item_lines(pairs.subrange(0, k as int), s) =~= item_lines(pairs.subrange(0, k - 1), s).push(
            LineV::MenuItem { main: pairs[k - 1].0, suffix_segments: item_segments(pairs[k - 1].1, s) }));
    }
    assert(pairs.subrange(0, items.len() as int) =~= pairs);
}

/// Appends the lines of the menu's groups: for each group that is shown,
/// its heading and one item per renderable component, with the allergen
/// suffix cut into highlighted segments when allergens are shown.
/// `expensive` marks the groups whose student price is too high.
pub fn append_menus(lines: &mut Vec<Line>, menu: &TodayMenu, provider: Provider, settings: &Settings, expensive: &Vec<bool>)
    ensures
        final(lines).deep_view() == old(lines).deep_view() + menus_lines(menu.deep_view().menus, provider, settings.deep_view(), expensive@),
{
    let ghost s = settings.deep_view();
    let ghost menus = menu.deep_view().menus;
    let ghost start = lines.deep_view();
    let groups = PriceGroups {
        student: settings.show_student_price,
        staff: settings.show_staff_price,
        guest: settings.show_guest_price,
        names: true,
    };
    let mut i: usize = 0;
    while i < menu.menus.len()
        invariant
            i <= menu.menus.len(),
            s == settings.deep_view(),
            menus == menu.deep_view().menus,
            groups == price_groups_for(s),
            lines.deep_view() == start + menus_lines(menus.subrange(0, i as int), provider, s, expensive@),
        decreases menu.menus.len() - i,
    {
        let ghost before = lines.deep_view();
        let group = &menu.menus[i];
        let hidden = provider == Provider::Compass && settings.hide_expensive_student_meals && i < expensive.len()
            && expensive[i];
        proof {
            assert(menus.subrange(0, i + 1).drop_last() =~= menus.subrange(0, i as int));
            assert(menus.subrange(0, i + 1).last() == group.deep_view());
        }
        if !hidden {
            let h = menu_heading(group, provider, settings.show_prices, groups);
            push_line(lines, Line::Heading(h));
            append_item_lines(lines, group, settings);
            assert(lines.deep_view() =~= before + group_lines(group.deep_view(), provider, s));
        }
        i += 1;
    }
    assert(menus.subrange(0, menu.menus.len() as int) =~= menus);
}

// ---------------------------------------------------------------- all lines

/// Whether the popup notes that a fetch is running: still loading with no
/// menu, for at least the hint delay.
pub open spec fn loading_hint_shown(st: AppStateV, now_ms: i64) -> bool {
    &&& st.status == FetchStatus::Loading
    &&& st.today_menu is None
    &&& st.loading_started_epoch_ms > 0
    &&& sat_sub(now_ms as int, st.loading_started_epoch_ms as int) >= LOADING_HINT_DELAY_MS
}

/// The date line of the shown menu (empty without one).
pub open spec fn date_line_of(m: Option<TodayMenuV>, language: Seq<char>) -> Seq<char> {
    match m {
        Some(t) => date_time_line(t.date_iso, t.lunch_time, language),
        None => Seq::empty(),
    }
}

/// The body of the popup: the menu's groups, or the no-menu note when there
/// is nothing to show and no fetch is running.
pub open spec fn body_lines(st: AppStateV, expensive: Seq<bool>) -> Seq<LineV> {
    let no_menu = if st.status != FetchStatus::Loading {
        seq![LineV::Text(label_text(st.settings.language, "noMenu"@))]
    } else {
        Seq::empty()
    };
    match st.today_menu {
        Some(m) => if m.menus.len() > 0 { menus_lines(m.menus, st.provider, st.settings, expensive) } else { no_menu },
        None => no_menu,
    }
}

/// Every line of the popup, in order: the stale-date marker, the loading
/// note, the date line, the body, the stale note (after a spacer), and the
/// fetch error unless the menu loaded.
pub open spec fn popup_lines(st: AppStateV, now_ms: i64, expensive: Seq<bool>) -> Seq<LineV> {
    let lang = st.settings.language;
    let stale_marker = if st.stale_date { seq![LineV::Heading("[STALE]"@)] } else { Seq::empty() };
    let loading = if loading_hint_shown(st, now_ms) { seq![LineV::Text(label_text(lang, "loading"@))] } else { Seq::empty() };
    let d = date_line_of(st.today_menu, lang);
    let date = if d.len() > 0 { seq![LineV::Heading(d)] } else { Seq::empty() };
    let stale = if st.status == FetchStatus::Stale {
        seq![LineV::Spacer, LineV::Text(label_text(lang, if st.stale_network_error { "staleNetwork"@ } else { "stale"@ }))]
    } else {
        Seq::empty()
    };
    let error = if st.error_message.len() > 0 && st.status != FetchStatus::Loaded {
        seq![LineV::Text(label_text(lang, "fetchError"@) + ": "@ + st.error_message)]
    } else {
        Seq::empty()
    };
    stale_marker + loading + date + body_lines(st, expensive) + stale + error
}

/// The popup lines for the state at `now_ms`; `expensive` marks the menu
/// groups whose student price is too high to show when such meals are hidden.
pub fn build_lines(state: &AppState, now_ms: i64, expensive: &Vec<bool>) -> (r: Vec<Line>)
    ensures
        r.deep_view() == popup_lines(state.deep_view(), now_ms, expensive@),
{
    let ghost st = state.deep_view();
    let ghost lang = st.settings.language;
    let mut lines: Vec<Line> = Vec::new();
    assert(lines.deep_view() =~= Seq::<LineV>::empty());
    if state.stale_date {
        push_line(&mut lines, Line::Heading(owned("[STALE]")));
    }
    let ghost l1 = lines.deep_view();
    let show_loading_hint = state.status == FetchStatus::Loading && state.today_menu.is_none()
        && state.loading_started_epoch_ms > 0
        && saturating_sub_i64(now_ms, state.loading_started_epoch_ms) >= LOADING_HINT_DELAY_MS;
    if show_loading_hint {
        push_line(&mut lines, Line::Text(text_for(state.settings.language.as_str(), "loading")));
    }
    let ghost l2 = lines.deep_view();
    let date_line = date_and_time_line(state.today_menu.as_ref(), state.settings.language.as_str());
    assert(date_line@ == date_line_of(st.today_menu, lang));
    if str_chars(date_line.as_str()).len() > 0 {
        push_line(&mut lines, Line::Heading(date_line));
    }
    let ghost l3 = lines.deep_view();
    match &state.today_menu {
        Some(menu) => {
            if menu.menus.len() > 0 {
                append_menus(&mut lines, menu, state.provider, &state.settings, expensive);
            } else if state.status != FetchStatus::Loading {
                push_line(&mut lines, Line::Text(text_for(state.settings.language.as_str(), "noMenu")));
            }
        },
        None => {
            if state.status != FetchStatus::Loading {
                push_line(&mut lines, Line::Text(text_for(state.settings.language.as_str(), "noMenu")));
            }
        },
    }
    assert(lines.deep_view() =~= l3 + body_lines(st, expensive@));
    let ghost l4 = lines.deep_view();
    if state.status == FetchStatus::Stale {
        push_line(&mut lines, Line::Spacer);
        let key = if state.stale_network_error { "staleNetwork" } else { "stale" };
        push_line(&mut lines, Line::Text(text_for(state.settings.language.as_str(), key)));
    }
    let ghost l5 = lines.deep_view();
    if str_chars(state.error_message.as_str()).len() > 0 && state.status != FetchStatus::Loaded {
        let mut text = str_chars(text_for(state.settings.language.as_str(), "fetchError").as_str());
        crate::seqs::extend_chars(&mut text, &str_chars(": "));
        crate::seqs::extend_chars(&mut text, &str_chars(state.error_message.as_str()));
        push_line(&mut lines, Line::Text(chars_to_string(&text)));
    }
    assert(lines.deep_view() =~= popup_lines(st, now_ms, expensive@));
    lines
}

// ---------------------------------------------------------------- header and cached states

/// The popup title: the selected restaurant's name and its place in the
/// offered list (the first restaurant when the code is not offered).
pub open spec fn header_title_text(s: SettingsV) -> Seq<char> {
    let list = restaurants(s.enable_antell_restaurants);
    let index = match position_of(list, s.restaurant_code) {
        Some(i) => i,
        None => 0,
    };
    list[index].name@ + " ("@ + decimal((index + 1) as nat) + "/"@ + decimal(list.len()) + ")"@
}

/// The popup title for the state's settings.
pub fn header_title(state: &AppState) -> (r: String)
    ensures
        r@ == header_title_text(state.settings.deep_view()),
{
    let list = available_restaurants(state.settings.enable_antell_restaurants);
    let index: usize = match position_in(&list, state.settings.restaurant_code.as_str()) {
        Some(i) => i,
        None => 0,
    };
    proof {
        lemma_position_of(list@, state.settings.restaurant_code@);
    }
    assert(list@.len() <= 10);
    let mut out = str_chars(list[index].name);
    crate::seqs::extend_chars(&mut out, &str_chars(" ("));
    crate::seqs::extend_chars(&mut out, &u32_to_decimal((index + 1) as u32));
    crate::seqs::extend_chars(&mut out, &str_chars("/"));
    crate::seqs::extend_chars(&mut out, &u32_to_decimal(list.len() as u32));
    crate::seqs::extend_chars(&mut out, &str_chars(")"));
    chars_to_string(&out)
}

/// Whether a cached result is today's menu: it names a payload date and
/// that date is today.
pub fn is_today_valid_cache(parsed: &FetchOutput, today_key: &str) -> (r: bool)
    ensures
        r == (parsed.payload_date@.len() > 0 && parsed.payload_date@ == today_key@),
{
    str_chars(parsed.payload_date.as_str()).len() > 0 && str_eq(parsed.payload_date.as_str(), today_key)
}

/// The state the popup shows for a cached result of `restaurant` before
/// the application state is ready: loaded or failed as the result says,
/// named after the result (the restaurant's own name when the result has
/// none), stale when the result is for another day than today.
pub open spec fn cached_popup_state(s: SettingsV, restaurant: Restaurant, r: FetchOutputV, today: Seq<char>) -> AppStateV {
    AppStateV {
        settings: s,
        status: if r.ok { FetchStatus::Loaded } else { FetchStatus::Error },
        loading_started_epoch_ms: 0,
        error_message: r.error_message,
        stale_network_error: false,
        today_menu: r.today_menu,
        restaurant_name: if r.restaurant_name.len() == 0 { restaurant.name@ } else { r.restaurant_name },
        restaurant_url: r.restaurant_url,
        raw_payload: r.raw_json,
        provider: restaurant.provider,
        payload_date: r.payload_date,
        stale_date: r.payload_date.len() > 0 && r.payload_date != today,
    }
}

/// The popup state for a cached result of `restaurant`.
pub fn popup_state_from_cached_result(settings: &Settings, restaurant: Restaurant, parsed: &FetchOutput, today_key: &str) -> (r: AppState)
    ensures
        r.deep_view() == cached_popup_state(settings.deep_view(), restaurant, parsed.deep_view(), today_key@),
{
    let restaurant_name = if str_chars(parsed.restaurant_name.as_str()).len() == 0 {
        owned(restaurant.name)
    } else {
        parsed.restaurant_name.clone()
    };
    let stale_date = str_chars(parsed.payload_date.as_str()).len() > 0 && !str_eq(parsed.payload_date.as_str(), today_key);
    AppState {
        settings: settings.clone(),
        status: if parsed.ok { FetchStatus::Loaded } else { FetchStatus::Error },
        loading_started_epoch_ms: 0,
        error_message: parsed.error_message.clone(),
        stale_network_error: false,
        today_menu: clone_menu_option(&parsed.today_menu),
        restaurant_name,
        restaurant_url: parsed.restaurant_url.clone(),
        raw_payload: parsed.raw_json.clone(),
        provider: restaurant.provider,
        payload_date: parsed.payload_date.clone(),
        stale_date,
    }
}

} // verus!
