use lunch_tray::app_state::{AppState, FetchStatus};
use lunch_tray::bench::{
    bench_build_line_count, bench_snapshot_clone, estimated_app_state_clone_bytes, estimated_app_state_clone_strings,
};
use lunch_tray::model::{
    MenuGroup, MenuGroupPresentation, MenuPrice, NutritionalValue, PriceAudience, RecipeInfo, TodayMenu,
};
use lunch_tray::perf::{reset, snapshot};
use lunch_tray::restaurant::Provider;
use lunch_tray::settings::Settings;

fn sample_settings() -> Settings {
    Settings {
        restaurant_code: "tietoteknia".to_string(),
        language: "fi".to_string(),
        enable_antell_restaurants: true,
        show_prices: true,
        show_allergens: true,
        highlight_gluten_free: true,
        highlight_veg: true,
        highlight_lactose_free: true,
        animations_enabled: true,
        show_student_price: true,
        show_staff_price: true,
        show_guest_price: true,
        hide_expensive_student_meals: false,
        refresh_minutes: 1440,
        theme: "dark".to_string(),
        widget_scale: "normal".to_string(),
        enable_logging: false,
        last_updated_epoch_ms: 0,
    }
}

fn sample_recipe() -> RecipeInfo {
    RecipeInfo {
        recipe_id: 1000,
        name: "Harkapapua tikka masala".to_string(),
        ingredients_cleaned: "harkapapu, tomaatti, kookosmaito".to_string(),
        nutritional_values: vec![
            NutritionalValue { name: "Energia".to_string(), amount_bits: 0, unit: "kcal".to_string() },
            NutritionalValue { name: "Proteiini".to_string(), amount_bits: 0, unit: "g".to_string() },
        ],
        kg_co2e_per100g_bits: None,
        diets: "G, L, M, Veg".to_string(),
    }
}

fn sample_today_menu() -> TodayMenu {
    TodayMenu {
        date_iso: "2026-07-24".to_string(),
        lunch_time: "10:30-14:00".to_string(),
        menus: vec![MenuGroup {
            name: "Lounasbuffet".to_string(),
            price: "13,30 € / 3,10 €".to_string(),
            prices: vec![
                MenuPrice { amount: "13.30".to_string(), audiences: vec![PriceAudience::Staff, PriceAudience::Guest] },
                MenuPrice { amount: "3.10".to_string(), audiences: vec![PriceAudience::Student] },
            ],
            presentation: MenuGroupPresentation::Standard,
            components: vec![
                "Harkapapua tikka masala (G, L, M, Veg)".to_string(),
                "Paahdettuja siemenia (G, L, M, Veg)".to_string(),
            ],
            component_recipe_ids: vec![Some(1000), None],
            component_recipe_details: vec![Some(sample_recipe()), None],
        }],
    }
}

fn sample_app_state() -> AppState {
    AppState {
        settings: sample_settings(),
        status: FetchStatus::Loaded,
        loading_started_epoch_ms: 0,
        error_message: String::new(),
        stale_network_error: false,
        today_menu: Some(sample_today_menu()),
        restaurant_name: "Tietoteknia".to_string(),
        restaurant_url: "https://example.invalid/tietoteknia".to_string(),
        raw_payload: "{\"date\":\"2026-07-24\"}".repeat(4),
        provider: Provider::LunchApi,
        payload_date: "2026-07-24".to_string(),
        stale_date: false,
    }
}

#[test]
fn perf_counter_smoke_over_bench_paths() {
    let mut counters = reset();
    let state = sample_app_state();
    let _ = bench_build_line_count(&state, 0, &Vec::new());
    let _ = bench_snapshot_clone(&mut counters, &state);
    let snap = snapshot(&counters, 0);
    assert!(snap.snapshot_cloned_bytes > 0);
    assert!(snap.snapshot_cloned_strings > 0);
}

#[test]
fn clone_estimates_add_up_every_copied_text() {
    let state = sample_app_state();
    let top = "".len() + "Tietoteknia".len() + "https://example.invalid/tietoteknia".len()
        + state.raw_payload.len() + "2026-07-24".len() + "tietoteknia".len() + "fi".len() + "dark".len()
        + "normal".len();
    let menu = "2026-07-24".len() + "10:30-14:00".len();
    let group = "Lounasbuffet".len() + "13,30 € / 3,10 €".len()
        + "Harkapapua tikka masala (G, L, M, Veg)".len() + "Paahdettuja siemenia (G, L, M, Veg)".len()
        + "13.30".len() + "3.10".len()
        + "Harkapapua tikka masala".len() + "harkapapu, tomaatti, kookosmaito".len() + "G, L, M, Veg".len()
        + "Energia".len() + "kcal".len() + "Proteiini".len() + "g".len();
    assert_eq!(estimated_app_state_clone_bytes(&state), top + menu + group);
    assert_eq!(estimated_app_state_clone_strings(&state), 9 + 2 + (2 + 2 + 2 + (3 + 2 * 2)));
    let mut counters = reset();
    let returned = bench_snapshot_clone(&mut counters, &state);
    assert_eq!(returned, state.raw_payload.len() + 2);
    assert_eq!(snapshot(&counters, 0).snapshot_cloned_bytes, (top + menu + group) as u64);
}
