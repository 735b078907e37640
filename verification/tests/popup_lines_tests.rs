use lunch_tray::app_state::{AppState, FetchStatus};
use lunch_tray::fetch::FetchOutput;
use lunch_tray::bench::{bench_build_line_count, bench_favorite_match_range_count};
use lunch_tray::highlights::{favorite_match_ranges, segments_for_row, str_piece, word_bounds, WordBounds};
use lunch_tray::model::{MenuGroup, MenuGroupPresentation, TodayMenu};
use lunch_tray::popup_lines::{
    append_menus, build_lines, header_title, is_today_valid_cache, popup_state_from_cached_result, Line,
};
use lunch_tray::popup_logic::{position_near_point, position_near_tray_rect, Rect};
use lunch_tray::restaurant::{restaurant_for_code, Provider};
use lunch_tray::settings::Settings;

fn settings(code: &str, language: &str) -> Settings {
    Settings {
        restaurant_code: code.to_string(),
        language: language.to_string(),
        enable_antell_restaurants: false,
        show_prices: true,
        show_allergens: true,
        highlight_gluten_free: true,
        highlight_veg: false,
        highlight_lactose_free: false,
        animations_enabled: true,
        show_student_price: true,
        show_staff_price: true,
        show_guest_price: true,
        hide_expensive_student_meals: false,
        refresh_minutes: 1440,
        theme: "dark".to_string(),
        widget_scale: "normal".to_string(),
        enable_logging: false,
        last_updated_epoch_ms: 0,
    }
}

fn group(name: &str, price: &str, components: &[&str]) -> MenuGroup {
    MenuGroup {
        name: name.to_string(),
        price: price.to_string(),
        prices: Vec::new(),
        presentation: MenuGroupPresentation::Standard,
        components: components.iter().map(|c| c.to_string()).collect(),
        component_recipe_ids: Vec::new(),
        component_recipe_details: Vec::new(),
    }
}

fn menu(groups: Vec<MenuGroup>) -> TodayMenu {
    TodayMenu { date_iso: "2025-02-03".to_string(), lunch_time: "10:30-14:00".to_string(), menus: groups }
}

fn state(status: FetchStatus, today_menu: Option<TodayMenu>) -> AppState {
    AppState {
        settings: settings("snellmania", "en"),
        status,
        loading_started_epoch_ms: 0,
        error_message: String::new(),
        stale_network_error: false,
        today_menu,
        restaurant_name: "Snellmania".to_string(),
        restaurant_url: String::new(),
        raw_payload: String::new(),
        provider: Provider::LunchApi,
        payload_date: "2025-02-03".to_string(),
        stale_date: false,
    }
}

fn describe(lines: &[Line]) -> Vec<String> {
    lines
        .iter()
        .map(|line| match line {
            Line::Heading(t) => format!("H:{}", t),
            Line::Text(t) => format!("T:{}", t),
            Line::MenuItem { main, suffix_segments } => {
                let segs: Vec<String> = suffix_segments
                    .iter()
                    .map(|(s, bold)| if *bold { format!("[{}]", s) } else { s.clone() })
                    .collect();
                format!("I:{}|{}", main, segs.concat())
            }
            Line::Spacer => "-".to_string(),
        })
        .collect()
}

#[test]
fn popup_lines_show_date_groups_and_items() {
    let st = state(
        FetchStatus::Loaded,
        Some(menu(vec![group("Lunch", "2,95 €", &["Tofu wok (G, L)", "  ", "Rice"])])),
    );
    let lines = build_lines(&st, 0, &Vec::new());
    assert_eq!(
        describe(&lines),
        vec![
            "H:2/3/2025 10:30-14:00".to_string(),
            "H:Lunch - 2,95 €".to_string(),
            "I:Tofu wok|([G], L)".to_string(),
            "I:Rice|".to_string(),
        ]
    );
}

#[test]
fn popup_lines_mark_stale_loading_and_errors() {
    let mut st = state(FetchStatus::Loading, None);
    st.stale_date = true;
    st.loading_started_epoch_ms = 1_000;
    let early = build_lines(&st, 1_100, &Vec::new());
    assert_eq!(describe(&early), vec!["H:[STALE]".to_string()]);
    let late = build_lines(&st, 1_250, &Vec::new());
    assert_eq!(describe(&late), vec!["H:[STALE]".to_string(), "T:Loading menu...".to_string()]);

    let mut stale = state(FetchStatus::Stale, None);
    stale.stale_network_error = true;
    stale.error_message = "timeout".to_string();
    assert_eq!(
        describe(&build_lines(&stale, 0, &Vec::new())),
        vec![
            "T:No lunch menu available for today.".to_string(),
            "-".to_string(),
            "T:Offline. Showing last cached menu.".to_string(),
            "T:Fetch error: timeout".to_string(),
        ]
    );
}

#[test]
fn popup_lines_hide_allergens_when_switched_off() {
    let mut st = state(FetchStatus::Loaded, Some(menu(vec![group("Lunch", "", &["Soup (L, G)"])])));
    st.settings.show_allergens = false;
    assert_eq!(describe(&build_lines(&st, 0, &Vec::new()))[2], "I:Soup|");
}

#[test]
fn expensive_groups_are_left_out_of_compass_menus_only_when_asked() {
    let m = menu(vec![group("Cheap", "", &["Soup"]), group("Dear", "", &["Steak"])]);
    let mut s = settings("snellmania", "en");
    s.show_allergens = false;
    let expensive = vec![false, true];
    let mut lines = Vec::new();
    append_menus(&mut lines, &m, Provider::Compass, &s, &expensive);
    assert_eq!(describe(&lines).len(), 4);
    s.hide_expensive_student_meals = true;
    let mut hidden = Vec::new();
    append_menus(&mut hidden, &m, Provider::Compass, &s, &expensive);
    assert_eq!(describe(&hidden), vec!["H:Cheap".to_string(), "I:Soup|".to_string()]);
    let mut other = Vec::new();
    append_menus(&mut other, &m, Provider::LunchApi, &s, &expensive);
    assert_eq!(describe(&other).len(), 4);
}

#[test]
fn header_title_names_restaurant_and_position() {
    let st = state(FetchStatus::Idle, None);
    assert_eq!(header_title(&st), "Snellmania (1/8)");
    let mut other = state(FetchStatus::Idle, None);
    other.settings.restaurant_code = "caari".to_string();
    other.settings.enable_antell_restaurants = true;
    assert_eq!(header_title(&other), "Caari (10/10)");
    other.settings.restaurant_code = "nowhere".to_string();
    assert_eq!(header_title(&other), "Snellmania (1/10)");
}

fn cached(date: &str, name: &str, ok: bool) -> FetchOutput {
    FetchOutput {
        ok,
        is_stale: false,
        error_message: if ok { String::new() } else { "bad".to_string() },
        today_menu: None,
        restaurant_name: name.to_string(),
        restaurant_url: "https://example.invalid".to_string(),
        provider: Provider::LunchApi,
        raw_json: "{}".to_string(),
        payload_date: date.to_string(),
    }
}

#[test]
fn cached_results_become_popup_states() {
    let restaurant = restaurant_for_code("canthia", false);
    let s = settings("canthia", "fi");
    let today = popup_state_from_cached_result(&s, restaurant, &cached("2025-02-03", "", true), "2025-02-03");
    assert_eq!(today.status, FetchStatus::Loaded);
    assert_eq!(today.restaurant_name, "Canthia");
    assert!(!today.stale_date);
    assert_eq!(today.raw_payload, "{}");
    let old = popup_state_from_cached_result(&s, restaurant, &cached("2025-02-02", "Canthia X", false), "2025-02-03");
    assert_eq!(old.status, FetchStatus::Error);
    assert_eq!(old.restaurant_name, "Canthia X");
    assert_eq!(old.error_message, "bad");
    assert!(old.stale_date);
    assert!(is_today_valid_cache(&cached("2025-02-03", "", true), "2025-02-03"));
    assert!(!is_today_valid_cache(&cached("2025-02-02", "", true), "2025-02-03"));
    assert!(!is_today_valid_cache(&cached("", "", true), ""));
}

#[test]
fn popup_at_a_point_opens_up_and_left_inside_the_work_area() {
    let work = Rect { left: 0, top: 0, right: 1920, bottom: 1040 };
    assert_eq!(position_near_point(400, 300, 1000, 800, work), (600, 500));
    assert_eq!(position_near_point(400, 300, 100, 100, work), (0, 0));
    assert_eq!(position_near_point(400, 300, 1000, 800, Rect { left: 0, top: 0, right: 300, bottom: 200 }), (-100, -100));
}

#[test]
fn popup_from_the_tray_opens_above_or_below_the_icon() {
    let work = Rect { left: 0, top: 0, right: 1920, bottom: 1040 };
    let tray = Rect { left: 1800, top: 1045, right: 1824, bottom: 1075 };
    assert_eq!(position_near_tray_rect(400, 300, tray, work), (1424, 735));
    let top_tray = Rect { left: 1800, top: 0, right: 1824, bottom: 30 };
    assert_eq!(position_near_tray_rect(400, 300, top_tray, work), (1424, 40));
    let edge = Rect { left: 10, top: 1045, right: 30, bottom: 1075 };
    assert_eq!(position_near_tray_rect(400, 300, edge, work), (0, 735));
}

#[test]
fn popup_placement_stays_inside_a_large_enough_work_area() {
    let work = Rect { left: -1920, top: 0, right: 0, bottom: 1080 };
    for &(x, y) in &[(-5000, -5000), (5000, 5000), (-1000, 500)] {
        let (px, py) = position_near_point(500, 400, x, y, work);
        assert!(px >= work.left && px + 500 <= work.right && py >= work.top && py + 400 <= work.bottom);
        let tray = Rect { left: x, top: y, right: x + 24, bottom: y + 24 };
        let (tx, ty) = position_near_tray_rect(500, 400, tray, work);
        assert!(tx >= work.left && tx + 500 <= work.right && ty >= work.top && ty + 400 <= work.bottom);
    }
}

#[test]
fn longer_favorites_win_and_highlights_come_in_text_order() {
    let text = "Tofu teriyaki with tofu";
    let snippets = vec!["tofu".to_string(), "tofu teriyaki".to_string()];
    assert_eq!(favorite_match_ranges(text, &snippets), vec![(0, 13), (19, 23)]);
    assert_eq!(favorite_match_ranges("", &snippets), Vec::<(usize, usize)>::new());
    assert_eq!(favorite_match_ranges(text, &Vec::new()), Vec::<(usize, usize)>::new());
    assert_eq!(favorite_match_ranges("aaaa", &vec!["aa".to_string()]), vec![(0, 2), (2, 4)]);
}

#[test]
fn favorite_ranges_are_byte_offsets() {
    let text = "Ääni ja PÄHKINÄ";
    let ranges = favorite_match_ranges(text, &vec!["pähkinä".to_string(), "".to_string()]);
    assert_eq!(ranges, vec![(10, 19)]);
    assert_eq!(&text[10..19], "PÄHKINÄ");
}

#[test]
fn favorite_ranges_never_overlap() {
    let text = "kana kanakastike kanakeitto";
    let snippets = vec!["kana".to_string(), "kanakastike".to_string(), "akas".to_string(), "keitto".to_string()];
    let ranges = favorite_match_ranges(text, &snippets);
    for pair in ranges.windows(2) {
        assert!(pair[0].0 < pair[0].1 && pair[0].1 <= pair[1].0);
    }
    assert_eq!(ranges, vec![(0, 4), (5, 16), (17, 21), (21, 27)]);
}

#[test]
fn rows_split_into_plain_and_highlighted_pieces() {
    let text = "Tofu teriyaki with tofu";
    let ranges = vec![(0, 13), (19, 23)];
    let whole = segments_for_row(text, 0, 23, &ranges);
    assert_eq!(
        whole,
        vec![("Tofu teriyaki".to_string(), true), (" with ".to_string(), false), ("tofu".to_string(), true)]
    );
    let part = segments_for_row(text, 5, 21, &ranges);
    assert_eq!(
        part,
        vec![("teriyaki".to_string(), true), (" with ".to_string(), false), ("to".to_string(), true)]
    );
    assert_eq!(segments_for_row(text, 14, 18, &ranges), vec![("with".to_string(), false)]);
    assert_eq!(segments_for_row(text, 9, 3, &ranges), vec![(String::new(), false)]);
    assert_eq!(segments_for_row("Ää", 0, 1, &Vec::new()), vec![(String::new(), false)]);
}

#[test]
fn pieces_are_cut_only_on_character_boundaries() {
    assert_eq!(str_piece("Ääni", 0, 2), Some("Ä".to_string()));
    assert_eq!(str_piece("Ääni", 1, 2), None);
    assert_eq!(str_piece("Ääni", 4, 6), Some("ni".to_string()));
    assert_eq!(str_piece("Ääni", 4, 7), None);
}

#[test]
fn words_are_byte_ranges_between_whitespace() {
    let spans = |text: &str| word_bounds(text).iter().map(|w: &WordBounds| (w.start, w.end)).collect::<Vec<_>>();
    assert_eq!(spans("  Tofu  wok "), vec![(2, 6), (8, 11)]);
    assert_eq!(spans("Ääni ja"), vec![(0, 6), (7, 9)]);
    assert_eq!(spans("abc"), vec![(0, 3)]);
    assert_eq!(spans(""), Vec::<(usize, usize)>::new());
    assert_eq!(spans("\t\n"), Vec::<(usize, usize)>::new());
}

#[test]
fn bench_workloads_count_lines_and_highlights() {
    let st = state(FetchStatus::Loaded, Some(menu(vec![group("Lunch", "", &["Soup", "Bread"])])));
    assert_eq!(bench_build_line_count(&st, 0, &Vec::new()), 4);
    assert_eq!(bench_favorite_match_range_count("Soup and soup", &vec!["soup".to_string()]), 2);
}
