use lunch_tray::app_state::{AppState, FetchStatus};
use lunch_tray::content_plan::{plan_content_layer, plan_static_layer, ContentPlan, DrawOp};
use lunch_tray::model::{MenuGroup, MenuGroupPresentation, TodayMenu};
use lunch_tray::restaurant::Provider;
use lunch_tray::selection::SelectionState;
use lunch_tray::settings::Settings;
use lunch_tray::popup_lines::Line;
use lunch_tray::popup_logic::{HeaderLayout, Rect};
use lunch_tray::selection::SelectionRange;

fn mono(px: i32) -> impl Fn(&str) -> i32 {
    move |s: &str| px * s.chars().count() as i32
}

fn layout() -> HeaderLayout {
    HeaderLayout {
        prev: Rect { left: 12, top: 10, right: 38, bottom: 36 },
        next: Rect { left: 44, top: 10, right: 70, bottom: 36 },
        close: Rect { left: 362, top: 10, right: 388, bottom: 36 },
    }
}

fn describe(plan: &ContentPlan) -> Vec<String> {
    plan.ops
        .iter()
        .map(|op| match op {
            DrawOp::Text { text, x, y, font, color } => format!("{}@{},{} {:?} {:?}", text, x, y, font, color),
            DrawOp::Fill { left, top, right, bottom } => format!("fill {},{},{},{}", left, top, right, bottom),
        })
        .collect()
}

fn plan(lines: &Vec<Line>, width: i32, content_width: i32, selection: Option<SelectionRange>) -> ContentPlan {
    plan_content_layer(
        if width > 200 { "Snellmania (1/10)" } else { "" },
        lines,
        width,
        content_width,
        &layout(),
        16,
        18,
        &vec!["tofu".to_string()],
        selection,
        true,
        0,
        &mono(8),
        &mono(9),
        &mono(6),
        &mono(7),
    )
}

#[test]
fn layer_draws_title_heading_item_and_text() {
    let lines = vec![
        Line::Heading("Lunch".to_string()),
        Line::MenuItem {
            main: "Tofu wok".to_string(),
            suffix_segments: vec![("G".to_string(), false), ("L".to_string(), true)],
        },
        Line::Spacer,
        Line::Text("hello".to_string()),
    ];
    let p = plan(&lines, 400, 376, None);
    assert_eq!(
        describe(&p),
        vec![
            "Snellmania (1/10)@123,14 Bold HeaderTitle".to_string(),
            "Lunch@12,56 Bold Heading".to_string(),
            "\u{25B8} @12,74 Normal Body".to_string(),
            "Tofu@28,74 Normal FavoriteHighlight".to_string(),
            " wok@60,74 Normal Body".to_string(),
            "G@96,75 Small Suffix".to_string(),
            "L@102,75 SmallBold SuffixHighlight".to_string(),
            "hello@12,101 Normal Body".to_string(),
        ]
    );
    assert_eq!(p.items, vec!["Tofu wok".to_string()]);
    assert_eq!(p.rows.len(), 1);
    let row = &p.rows[0];
    assert_eq!((row.item_id, row.start, row.end, row.left, row.top, row.bottom), (0, 0, 8, 28, 74, 92));
    let bounds: Vec<(usize, i32)> = row.boundaries.iter().map(|b| (b.byte_index, b.x_offset)).collect();
    assert_eq!(bounds.len(), 9);
    assert_eq!(bounds[4], (4, 32));
    assert_eq!(bounds[8], (8, 64));
}

#[test]
fn layer_wraps_a_wide_item_and_shows_its_selection() {
    let lines = vec![Line::MenuItem {
        main: "Tofu wok".to_string(),
        suffix_segments: vec![("G, L".to_string(), false)],
    }];
    let p = plan(&lines, 100, 60, Some(SelectionRange { item_id: 0, start: 0, end: 4 }));
    assert_eq!(
        describe(&p),
        vec![
            "@82,14 Bold HeaderTitle".to_string(),
            "\u{25B8} @12,56 Normal Body".to_string(),
            "fill 28,56,60,73".to_string(),
            "Tofu@28,56 Normal FavoriteHighlight".to_string(),
            "wok@28,74 Normal Body".to_string(),
            "G, L@28,93 Small Suffix".to_string(),
        ]
    );
    let rows: Vec<(usize, usize, usize, i32, i32, i32)> =
        p.rows.iter().map(|r| (r.item_id, r.start, r.end, r.left, r.top, r.bottom)).collect();
    assert_eq!(rows, vec![(0, 0, 4, 28, 56, 74), (0, 5, 8, 28, 74, 92)]);
}

#[test]
fn layer_without_capture_keeps_no_items_or_selection() {
    let lines = vec![Line::MenuItem { main: "Tofu wok".to_string(), suffix_segments: Vec::new() }];
    let p = plan_content_layer(
        "",
        &lines,
        100,
        60,
        &layout(),
        16,
        18,
        &Vec::new(),
        Some(SelectionRange { item_id: 0, start: 0, end: 4 }),
        false,
        -10,
        &mono(8),
        &mono(9),
        &mono(6),
        &mono(7),
    );
    assert!(p.items.is_empty());
    assert!(p.rows.is_empty());
    assert!(describe(&p).iter().all(|op| !op.starts_with("fill")));
    assert_eq!(describe(&p)[1], "\u{25B8} @12,46 Normal Body".to_string());
}

#[test]
fn selectable_rows_run_top_to_bottom() {
    let lines = vec![
        Line::MenuItem { main: "Tofu wok with a long name".to_string(), suffix_segments: Vec::new() },
        Line::Spacer,
        Line::MenuItem { main: "Rice".to_string(), suffix_segments: vec![("G".to_string(), false)] },
        Line::MenuItem { main: "Very long soup of the day".to_string(), suffix_segments: Vec::new() },
    ];
    let p = plan(&lines, 100, 60, None);
    assert!(p.rows.len() >= 4);
    for pair in p.rows.windows(2) {
        assert!(pair[0].top <= pair[1].top);
        assert_eq!(pair[0].bottom, pair[0].top + 18);
    }
    assert_eq!(p.items.len(), 3);
}

fn shown_state() -> AppState {
    AppState {
        settings: Settings {
            restaurant_code: "snellmania".to_string(),
            language: "en".to_string(),
            enable_antell_restaurants: false,
            show_prices: false,
            show_allergens: true,
            highlight_gluten_free: false,
            highlight_veg: false,
            highlight_lactose_free: false,
            animations_enabled: true,
            show_student_price: true,
            show_staff_price: true,
            show_guest_price: true,
            hide_expensive_student_meals: false,
            refresh_minutes: 1440,
            theme: "dark".to_string(),
            widget_scale: "normal".to_string(),
            enable_logging: false,
            last_updated_epoch_ms: 0,
        },
        status: FetchStatus::Loaded,
        loading_started_epoch_ms: 0,
        error_message: String::new(),
        stale_network_error: false,
        today_menu: Some(TodayMenu {
            date_iso: "2025-02-03".to_string(),
            lunch_time: "10:30-14:00".to_string(),
            menus: vec![MenuGroup {
                name: "Lunch".to_string(),
                price: String::new(),
                prices: Vec::new(),
                presentation: MenuGroupPresentation::Standard,
                components: vec!["Tofu wok (G, L)".to_string(), "Rice".to_string()],
                component_recipe_ids: Vec::new(),
                component_recipe_details: Vec::new(),
            }],
        }),
        restaurant_name: "Snellmania".to_string(),
        restaurant_url: String::new(),
        raw_payload: String::new(),
        provider: Provider::LunchApi,
        payload_date: "2025-02-03".to_string(),
        stale_date: false,
    }
}

#[test]
fn static_layer_keeps_its_rows_for_selecting_and_shows_the_selection() {
    let state = shown_state();
    let mut selection = SelectionState::new();
    let ops = plan_static_layer(&mut selection, 7, &state, 0, &Vec::new(), 400, 16, &Vec::new(), &mono(8), &mono(9), &mono(6), &mono(7));
    assert!(!ops.is_empty());
    let (left, top) = {
        let layout = selection.layout.as_ref().expect("layout kept");
        assert_eq!(layout.window, 7);
        assert_eq!(layout.items, vec!["Tofu wok".to_string(), "Rice".to_string()]);
        assert_eq!(layout.rows.len(), 2);
        (layout.rows[0].left, layout.rows[0].top)
    };
    assert!(selection.begin_text_selection(7, left + 1, top + 1));
    assert!(selection.update_text_selection(7, left + 33, top + 1));
    let ops = plan_static_layer(&mut selection, 7, &state, 0, &Vec::new(), 400, 16, &Vec::new(), &mono(8), &mono(9), &mono(6), &mono(7));
    let fills: Vec<(i32, i32, i32, i32)> = ops
        .iter()
        .filter_map(|op| match op {
            DrawOp::Fill { left, top, right, bottom } => Some((*left, *top, *right, *bottom)),
            _ => None,
        })
        .collect();
    assert_eq!(fills, vec![(left, top, left + 32, top + 17)]);
    assert!(selection.text_selection_active(7));
}
