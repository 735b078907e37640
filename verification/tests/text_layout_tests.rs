use lunch_tray::cached_budget::{desired_size, max_today_cached_layout_budget, CachedCandidate};
use lunch_tray::popup_size::{popup_size, target_content_width, CachedLayoutBudget};
use lunch_tray::fetch::FetchOutput;
use lunch_tray::model::{MenuGroup, MenuGroupPresentation, TodayMenu};
use lunch_tray::popup_lines::{build_lines, popup_state_from_cached_result, Line};
use lunch_tray::restaurant::{restaurant_for_code, Provider};
use lunch_tray::settings::Settings;
use lunch_tray::settings::CrtProfile;
use lunch_tray::text_layout::{
    fit_text_to_width, measure_lines_layout, row_boundaries, text_with_suffix_width, wrap_text_to_width_rows,
    wrapped_line_count_for_text, WrappedRow,
};

fn mono(px: i32) -> impl Fn(&str) -> i32 {
    move |s: &str| px * s.chars().count() as i32
}

fn rows_of(rows: &[WrappedRow]) -> Vec<(String, usize, usize)> {
    rows.iter().map(|r| (r.text.clone(), r.start, r.end)).collect()
}

#[test]
fn fit_keeps_text_that_fits() {
    assert_eq!(fit_text_to_width("Hello", 40, &mono(8)), "Hello");
    assert_eq!(fit_text_to_width("  Hello  ", 40, &mono(8)), "Hello");
}

#[test]
fn fit_clips_with_ellipsis() {
    assert_eq!(fit_text_to_width("Hello world", 40, &mono(8)), "He...");
}

#[test]
fn fit_drops_trailing_space_before_ellipsis() {
    assert_eq!(fit_text_to_width("Ab cdefgh", 48, &mono(8)), "Ab...");
}

#[test]
fn fit_gives_ellipsis_alone_when_nothing_else_fits() {
    assert_eq!(fit_text_to_width("Hello world", 20, &mono(8)), "...");
}

#[test]
fn fit_gives_nothing_for_blank_text_or_no_room() {
    assert_eq!(fit_text_to_width("   ", 40, &mono(8)), "");
    assert_eq!(fit_text_to_width("Hello", 0, &mono(8)), "");
    assert_eq!(fit_text_to_width("Hello", -5, &mono(8)), "");
}

#[test]
fn wrap_keeps_a_fitting_text_on_one_row() {
    let rows = wrap_text_to_width_rows("  Soup  of the day ", 400, &mono(8));
    assert_eq!(rows_of(&rows), vec![("Soup of the day".to_string(), 0, 15)]);
}

#[test]
fn wrap_breaks_between_words() {
    let rows = wrap_text_to_width_rows("alpha beta gamma", 80, &mono(8));
    assert_eq!(
        rows_of(&rows),
        vec![("alpha beta".to_string(), 0, 10), ("gamma".to_string(), 11, 16)]
    );
}

#[test]
fn wrap_cuts_a_long_word_by_characters() {
    let rows = wrap_text_to_width_rows("abcdefghijklmnopqrstu", 10, &mono(8));
    assert_eq!(rows.len(), 11);
    assert_eq!(rows_of(&rows)[0], ("ab".to_string(), 0, 2));
    assert_eq!(rows_of(&rows)[10], ("u".to_string(), 20, 21));
}

#[test]
fn wrap_reports_byte_offsets_of_multibyte_text() {
    let rows = wrap_text_to_width_rows("åäö xyz", 10, &mono(8));
    assert_eq!(
        rows_of(&rows),
        vec![
            ("åä".to_string(), 0, 4),
            ("ö".to_string(), 4, 6),
            ("xy".to_string(), 7, 9),
            ("z".to_string(), 9, 10),
        ]
    );
}

#[test]
fn wrap_gives_no_rows_for_blank_text() {
    assert!(wrap_text_to_width_rows(" \t ", 100, &mono(8)).is_empty());
    assert_eq!(wrapped_line_count_for_text("", 100, &mono(8)), 0);
}

#[test]
fn wrapped_line_count_counts_rows() {
    assert_eq!(wrapped_line_count_for_text("alpha beta gamma", 80, &mono(8)), 2);
    assert_eq!(wrapped_line_count_for_text("alpha beta gamma", 800, &mono(8)), 1);
}

#[test]
fn wrapped_rows_are_in_order_for_uneven_widths() {
    let uneven = |s: &str| s.chars().map(|c| if c == 'm' { 20 } else { 5 }).sum::<i32>();
    let rows = wrap_text_to_width_rows("mm aaa mmmm a mmm", 30, &uneven);
    let mut last_end = 0;
    for row in &rows {
        assert!(row.start >= last_end);
        assert!(row.start <= row.end);
        last_end = row.end;
    }
    assert!(last_end <= "mm aaa mmmm a mmm".len());
}

#[test]
fn row_boundaries_follow_characters() {
    let bounds = row_boundaries("aé", &mono(8));
    let got: Vec<(usize, i32)> = bounds.iter().map(|b| (b.byte_index, b.x_offset)).collect();
    assert_eq!(got, vec![(0, 0), (1, 8), (3, 16)]);
}

#[test]
fn suffix_width_adds_bullet_main_segments_and_gap() {
    let segments = vec![("G".to_string(), false), ("VL".to_string(), true)];
    assert_eq!(text_with_suffix_width("Soup", &segments, 10, &mono(8), &mono(6), &mono(7)), 66);
    assert_eq!(text_with_suffix_width("Soup", &Vec::new(), 10, &mono(8), &mono(6), &mono(7)), 42);
}

#[test]
fn lines_layout_counts_one_row_per_fitting_line() {
    let lines = vec![
        Line::Heading("Today".to_string()),
        Line::Text("hello".to_string()),
        Line::MenuItem { main: "Soup".to_string(), suffix_segments: vec![("G".to_string(), false)] },
        Line::Spacer,
    ];
    let metrics = measure_lines_layout(&lines, 100, &mono(8), &mono(9), &mono(6), &mono(7));
    assert_eq!(metrics.required_content_width, 58);
    assert_eq!(metrics.wrapped_line_count, 4);
}

#[test]
fn lines_layout_wraps_wide_menu_items() {
    let lines = vec![Line::MenuItem {
        main: "Soup of day".to_string(),
        suffix_segments: vec![("G, L".to_string(), false)],
    }];
    let metrics = measure_lines_layout(&lines, 10, &mono(8), &mono(9), &mono(6), &mono(7));
    assert_eq!(metrics.required_content_width, 132);
    assert_eq!(metrics.wrapped_line_count, 5);
}

#[test]
fn crt_profile_reads_settings_value() {
    assert_eq!(CrtProfile::from_settings("lite"), CrtProfile::Lite);
    assert_eq!(CrtProfile::from_settings("full"), CrtProfile::Full);
    assert_eq!(CrtProfile::from_settings("off"), CrtProfile::Off);
    assert_eq!(CrtProfile::from_settings("FULL"), CrtProfile::Off);
}

fn budget_settings() -> Settings {
    Settings {
        restaurant_code: "canthia".to_string(),
        language: "en".to_string(),
        enable_antell_restaurants: false,
        show_prices: true,
        show_allergens: true,
        highlight_gluten_free: false,
        highlight_veg: false,
        highlight_lactose_free: false,
        animations_enabled: true,
        show_student_price: true,
        show_staff_price: true,
        show_guest_price: true,
        hide_expensive_student_meals: false,
        refresh_minutes: 1440,
        theme: "dark".to_string(),
        widget_scale: "normal".to_string(),
        enable_logging: false,
        last_updated_epoch_ms: 0,
    }
}

fn cached_result(date: &str, ok: bool, components: &[&str]) -> FetchOutput {
    FetchOutput {
        ok,
        is_stale: false,
        error_message: String::new(),
        today_menu: Some(TodayMenu {
            date_iso: date.to_string(),
            lunch_time: "10:30-14:00".to_string(),
            menus: vec![MenuGroup {
                name: "Lunch".to_string(),
                price: "2,95 €".to_string(),
                prices: Vec::new(),
                presentation: MenuGroupPresentation::Standard,
                components: components.iter().map(|c| c.to_string()).collect(),
                component_recipe_ids: Vec::new(),
                component_recipe_details: Vec::new(),
            }],
        }),
        restaurant_name: "Canthia".to_string(),
        restaurant_url: String::new(),
        provider: Provider::LunchApi,
        raw_json: "{}".to_string(),
        payload_date: date.to_string(),
    }
}

#[test]
fn cached_budget_measures_only_todays_menus() {
    let s = budget_settings();
    let r = restaurant_for_code("canthia", false);
    let candidates = vec![
        CachedCandidate { restaurant: r, parsed: cached_result("2025-02-02", true, &["Old soup", "Old bread"]), expensive: Vec::new() },
        CachedCandidate { restaurant: r, parsed: cached_result("2025-02-03", true, &["Tofu wok (G, L)", "Rice"]), expensive: Vec::new() },
        CachedCandidate { restaurant: r, parsed: cached_result("2025-02-03", false, &["Failed"]), expensive: Vec::new() },
    ];
    let budget = max_today_cached_layout_budget(&s, "2025-02-03", &candidates, &mono(8), &mono(9), &mono(6), &mono(7));
    let state = popup_state_from_cached_result(&s, r, &candidates[1].parsed, "2025-02-03");
    let lines = build_lines(&state, 0, &Vec::new());
    let metrics = measure_lines_layout(&lines, 501, &mono(8), &mono(9), &mono(6), &mono(7));
    assert_eq!(budget.max_wrapped_lines, Some(metrics.wrapped_line_count));
    assert_eq!(budget.max_content_width_px, Some(metrics.required_content_width));
    assert!(metrics.wrapped_line_count >= 3);
}

#[test]
fn cached_budget_is_empty_without_todays_menu() {
    let s = budget_settings();
    let r = restaurant_for_code("canthia", false);
    let candidates = vec![CachedCandidate {
        restaurant: r,
        parsed: cached_result("2025-02-02", true, &["Old soup"]),
        expensive: Vec::new(),
    }];
    let budget = max_today_cached_layout_budget(&s, "2025-02-03", &candidates, &mono(8), &mono(9), &mono(6), &mono(7));
    assert_eq!(budget.max_wrapped_lines, None);
    assert_eq!(budget.max_content_width_px, None);
}

#[test]
fn wrapping_loses_no_text() {
    let uneven = |s: &str| s.chars().map(|c| if c == 'm' { 20 } else { 5 }).sum::<i32>();
    for text in ["mm aaa mmmm a mmm", "  mmmmmmmmmm   a  ", "ä mmmö aaaaaaaaaaaaaaaa"] {
        let clean: String = text.split_whitespace().collect::<Vec<_>>().join(" ");
        let rows = wrap_text_to_width_rows(text, 30, &uneven);
        for (idx, ch) in clean.char_indices() {
            if ch.is_whitespace() {
                continue;
            }
            assert!(rows.iter().any(|r| r.start <= idx && idx < r.end), "{:?} at {} of {:?}", ch, idx, text);
        }
        for r in &rows {
            assert_eq!(r.text, clean[r.start..r.end]);
        }
    }
}

#[test]
fn desired_size_lays_the_shown_menu_out_at_the_budget_width() {
    let s = budget_settings();
    let r = restaurant_for_code("canthia", false);
    let state = popup_state_from_cached_result(&s, r, &cached_result("2025-02-03", true, &["Tofu wok (G, L)", "Rice"]), "2025-02-03");
    let no_budget = CachedLayoutBudget { max_wrapped_lines: None, max_content_width_px: None };
    let lines = build_lines(&state, 0, &Vec::new());
    let widest = measure_lines_layout(&lines, 501, &mono(8), &mono(9), &mono(6), &mono(7));
    let cw = target_content_width(no_budget, widest);
    let at_width = measure_lines_layout(&lines, cw, &mono(8), &mono(9), &mono(6), &mono(7));
    let expected = popup_size(cw, no_budget, at_width.wrapped_line_count, 16);
    let got = desired_size(&state, 0, &Vec::new(), no_budget, 16, &mono(8), &mono(9), &mono(6), &mono(7));
    assert_eq!(got, Some(expected));
    assert_eq!(expected.0, 320);
    let budget = CachedLayoutBudget { max_wrapped_lines: Some(20), max_content_width_px: Some(450) };
    let sized = desired_size(&state, 0, &Vec::new(), budget, 16, &mono(8), &mono(9), &mono(6), &mono(7));
    assert_eq!(sized, Some((474, 46 + 20 * 18 + 20)));
}

#[test]
fn desired_size_gives_up_on_an_absurd_font_height() {
    let s = budget_settings();
    let r = restaurant_for_code("canthia", false);
    let state = popup_state_from_cached_result(&s, r, &cached_result("2025-02-03", true, &["Rice"]), "2025-02-03");
    let no_budget = CachedLayoutBudget { max_wrapped_lines: None, max_content_width_px: None };
    assert_eq!(desired_size(&state, 0, &Vec::new(), no_budget, i32::MAX, &mono(8), &mono(9), &mono(6), &mono(7)), None);
}
