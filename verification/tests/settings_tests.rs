use lunch_tray::app_state::{AppCore, FetchStatus};
use lunch_tray::fetch::{FetchOutput, FetchReason};
use lunch_tray::restaurant::Provider;
use lunch_tray::settings::Settings;

fn settings(code: &str, language: &str) -> Settings {
    Settings {
        restaurant_code: code.to_string(),
        language: language.to_string(),
        enable_antell_restaurants: false,
        show_prices: true,
        show_allergens: true,
        highlight_gluten_free: true,
        highlight_veg: true,
        highlight_lactose_free: true,
        animations_enabled: true,
        show_student_price: true,
        show_staff_price: true,
        show_guest_price: true,
        hide_expensive_student_meals: false,
        refresh_minutes: 1440,
        theme: "dark".to_string(),
        widget_scale: "normal".to_string(),
        enable_logging: false,
        last_updated_epoch_ms: 0,
    }
}

fn cached(date: &str) -> FetchOutput {
    FetchOutput {
        ok: true,
        is_stale: false,
        error_message: String::new(),
        today_menu: None,
        restaurant_name: "Snellmania".to_string(),
        restaurant_url: String::new(),
        provider: Provider::LunchApi,
        raw_json: "{}".to_string(),
        payload_date: date.to_string(),
    }
}

#[test]
fn each_toggle_flips_its_own_setting() {
    let mut core = AppCore::new(settings("snellmania", "fi"));
    core.toggle_show_prices();
    core.toggle_show_allergens();
    core.toggle_highlight_gluten_free();
    core.toggle_highlight_veg();
    core.toggle_highlight_lactose_free();
    core.toggle_animations();
    core.toggle_show_student_price();
    core.toggle_show_staff_price();
    core.toggle_show_guest_price();
    core.toggle_hide_expensive_student_meals();
    let s = core.snapshot().settings;
    assert!(!s.show_prices && !s.show_allergens);
    assert!(!s.highlight_gluten_free && !s.highlight_veg && !s.highlight_lactose_free);
    assert!(!s.animations_enabled);
    assert!(!s.show_student_price && !s.show_staff_price && !s.show_guest_price);
    assert!(s.hide_expensive_student_meals);
    assert_eq!(s.restaurant_code, "snellmania");
    core.toggle_show_prices();
    assert!(core.snapshot().settings.show_prices);
    assert!(core.toggle_logging());
    assert!(!core.toggle_logging());
}

#[test]
fn setters_store_their_values() {
    let mut core = AppCore::new(settings("snellmania", "fi"));
    core.set_refresh_minutes(30);
    core.set_theme("light");
    core.set_widget_scale("large");
    let s = core.snapshot().settings;
    assert_eq!(s.refresh_minutes, 30);
    assert_eq!(s.theme, "light");
    assert_eq!(s.widget_scale, "large");
}

#[test]
fn switching_language_clears_the_shown_menu() {
    let mut core = AppCore::new(settings("snellmania", "fi"));
    core.apply_cached_result(&cached("2026-07-24"), "2026-07-24");
    assert_eq!(core.snapshot().status, FetchStatus::Loaded);
    core.set_language("en");
    let state = core.snapshot();
    assert_eq!(state.settings.language, "en");
    assert_eq!(state.status, FetchStatus::Idle);
    assert_eq!(state.raw_payload, "");
    assert_eq!(state.payload_date, "");
    assert!(state.today_menu.is_none());
}

#[test]
fn startup_fetches_a_missing_menu_and_shows_loading() {
    let mut core = AppCore::new(settings("snellmania", "fi"));
    let request = core.maybe_refresh_on_startup(1_000, "2026-07-24", None).expect("no menu yet");
    assert_eq!(request.context.reason, FetchReason::StartupMissingCache);
    assert_eq!(request.requested_code, "snellmania");
    assert_eq!(core.snapshot().status, FetchStatus::Loading);
}

#[test]
fn selection_leaves_a_fresh_menu_alone_and_fetches_a_stale_one() {
    let mut core = AppCore::new(settings("snellmania", "fi"));
    core.apply_cached_result(&cached("2026-07-24"), "2026-07-24");
    assert!(core.maybe_refresh_on_selection(1_000, "2026-07-24", Some(900)).is_none());
    let mut stale = AppCore::new(settings("snellmania", "fi"));
    stale.apply_cached_result(&cached("2026-07-23"), "2026-07-24");
    let request = stale.maybe_refresh_on_selection(1_000, "2026-07-24", Some(900)).expect("stale menu");
    assert_eq!(request.context.reason, FetchReason::SelectionStaleDate);
    assert_eq!(stale.snapshot().status, FetchStatus::Loaded);
}

#[test]
fn language_switch_refetches_after_the_refresh_interval() {
    let mut core = AppCore::new(settings("snellmania", "fi"));
    core.apply_cached_result(&cached("2026-07-24"), "2026-07-24");
    let day_ms: i64 = 1440 * 60_000;
    assert!(core.maybe_refresh_on_language_switch(day_ms - 1, "2026-07-24", Some(0)).is_none());
    let request = core.maybe_refresh_on_language_switch(day_ms, "2026-07-24", Some(0)).expect("interval elapsed");
    assert_eq!(request.context.reason, FetchReason::LanguageSwitchRefreshInterval);
}

#[test]
fn midnight_and_retry_fetches_carry_their_reasons() {
    let mut core = AppCore::new(settings("snellmania", "fi"));
    let midnight = core.refresh_current_at_midnight(5).expect("midnight fetch");
    assert_eq!(midnight.context.reason, FetchReason::MidnightRollover);
    let mut other = AppCore::new(settings("snellmania", "fi"));
    let retry = other.start_refresh_retry(5, "2026-07-24", None).expect("nothing cached");
    assert_eq!(retry.context.reason, FetchReason::RetryTimer);
    let mut fresh = AppCore::new(settings("snellmania", "fi"));
    fresh.apply_cached_result(&cached("2026-07-24"), "2026-07-24");
    assert!(fresh.start_refresh_retry(5, "2026-07-24", Some(0)).is_none());
}

#[test]
fn current_target_follows_the_selected_restaurant() {
    let mut core = AppCore::new(settings("snellmania", "en"));
    let target = core.current_target();
    assert_eq!(target.restaurant.code, "snellmania");
    core.set_restaurant("canthia");
    assert_eq!(core.current_target().restaurant.code, "canthia");
}
