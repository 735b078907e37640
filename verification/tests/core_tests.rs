use lunch_tray::app_state::{
    release_url_to_open, AppCore, FetchApplyOutcome, FetchMessage, FetchStatus, StartOptions,
};
use lunch_tray::fetch::{FetchContext, FetchMode, FetchOutput, FetchReason};
use lunch_tray::menu_payload::failed_fetch_output;
use lunch_tray::restaurant::{restaurant_for_code, Provider};
use lunch_tray::settings::Settings;

fn settings(code: &str, language: &str) -> Settings {
    Settings {
        restaurant_code: code.to_string(),
        language: language.to_string(),
        enable_antell_restaurants: true,
        show_prices: true,
        show_allergens: true,
        highlight_gluten_free: true,
        highlight_veg: true,
        highlight_lactose_free: true,
        animations_enabled: true,
        show_student_price: true,
        show_staff_price: true,
        show_guest_price: true,
        hide_expensive_student_meals: false,
        refresh_minutes: 1440,
        theme: "dark".to_string(),
        widget_scale: "normal".to_string(),
        enable_logging: false,
        last_updated_epoch_ms: 0,
    }
}

fn ok_output(date: &str) -> FetchOutput {
    FetchOutput {
        ok: true,
        is_stale: false,
        error_message: String::new(),
        today_menu: None,
        restaurant_name: "Tietoteknia".to_string(),
        restaurant_url: "https://example.invalid".to_string(),
        provider: Provider::LunchApi,
        raw_json: "{}".to_string(),
        payload_date: date.to_string(),
    }
}

fn message(code: &str, language: &str, effective: &str, result: FetchOutput) -> FetchMessage {
    FetchMessage {
        requested_code: code.to_string(),
        requested_language: language.to_string(),
        requested_effective_language: effective.to_string(),
        request_key: format!("{}|{}", code, effective),
        context: FetchContext::new(FetchMode::Current, FetchReason::ManualRefresh),
        result,
    }
}

const QUIET: StartOptions = StartOptions { mark_loading_when_empty: false, bypass_cooldown: false };

#[test]
fn a_second_fetch_waits_while_one_is_in_flight() {
    let mut core = AppCore::new(settings("tietoteknia", "fi"));
    let first = core.refresh_current_manually(1_000).expect("first fetch starts");
    assert_eq!(first.request_key, "tietoteknia|fi");
    assert_eq!(first.context.reason, FetchReason::ManualRefresh);
    assert_eq!(core.snapshot().status, FetchStatus::Loading);
    assert!(core.refresh_current_manually(1_001).is_none());
    assert!(core.begin_refresh("tietoteknia", FetchContext::new(FetchMode::Current, FetchReason::RetryTimer), QUIET, 1_002).is_none());
}

#[test]
fn a_failure_sets_a_cooldown_and_a_success_clears_it() {
    let mut core = AppCore::new(settings("tietoteknia", "fi"));
    let _ = core.refresh_current_from_timer(1_000).expect("starts");
    let failed = failed_fetch_output(restaurant_for_code("tietoteknia", true), "timed out".to_string());
    let applied = core.apply_fetch_message(message("tietoteknia", "fi", "fi", failed), 2_000, "2026-07-24");
    assert_eq!(applied.outcome, FetchApplyOutcome::CurrentFailure);
    assert!(applied.persist_languages.is_empty());
    assert_eq!(core.snapshot().status, FetchStatus::Error);
    assert_eq!(core.current_retry_delay_ms(2_000), 10_000);
    assert!(core.refresh_current_from_timer(3_000).is_none());
    let manual = core.refresh_current_manually(3_000).expect("manual fetch ignores the cooldown");
    let applied = core.apply_fetch_message(message("tietoteknia", "fi", "fi", ok_output("2026-07-24")), 4_000, "2026-07-24");
    assert_eq!(applied.outcome, FetchApplyOutcome::CurrentSuccess);
    assert_eq!(applied.persist_languages, vec!["fi".to_string()]);
    assert_eq!(manual.requested_code, "tietoteknia");
    let state = core.snapshot();
    assert_eq!(state.status, FetchStatus::Loaded);
    assert_eq!(state.settings.last_updated_epoch_ms, 4_000);
    assert!(!state.stale_date);
    assert_eq!(core.current_retry_delay_ms(4_000), 1_000);
    assert!(core.refresh_current_from_timer(4_001).is_some());
}

#[test]
fn a_failure_over_a_shown_menu_marks_it_stale() {
    let mut core = AppCore::new(settings("tietoteknia", "fi"));
    core.apply_cached_result(&ok_output("2026-07-23"), "2026-07-24");
    assert!(core.snapshot().stale_date);
    let _ = core.check_stale_date_and_refresh(1_000, "2026-07-24").expect("stale date fetches");
    let failed = failed_fetch_output(restaurant_for_code("tietoteknia", true), "dns error".to_string());
    core.apply_fetch_message(message("tietoteknia", "fi", "fi", failed), 2_000, "2026-07-24");
    let state = core.snapshot();
    assert_eq!(state.status, FetchStatus::Stale);
    assert!(state.stale_network_error);
    assert_eq!(state.error_message, "dns error");
}

#[test]
fn background_results_leave_the_view_alone() {
    let mut core = AppCore::new(settings("tietoteknia", "en"));
    let applied = core.apply_fetch_message(message("caari", "en", "fi", ok_output("2026-07-24")), 1_000, "2026-07-24");
    assert_eq!(applied.outcome, FetchApplyOutcome::BackgroundSuccess);
    assert_eq!(applied.persist_languages, vec!["en".to_string()]);
    assert_eq!(core.snapshot().status, FetchStatus::Idle);
}

#[test]
fn a_result_for_another_ui_language_is_cached_under_both() {
    let mut core = AppCore::new(settings("caari", "en"));
    let applied = core.apply_fetch_message(message("caari", "fi", "fi", ok_output("2026-07-24")), 1_000, "2026-07-24");
    assert_eq!(applied.outcome, FetchApplyOutcome::CurrentSuccess);
    assert_eq!(applied.persist_languages, vec!["fi".to_string(), "en".to_string()]);
}

#[test]
fn memory_cache_round_trips_a_result() {
    let mut core = AppCore::new(settings("tietoteknia", "fi"));
    assert!(!core.load_memory_for_current("2026-07-24"));
    core.store_memory_from_fetch_output("tietoteknia", "fi", &ok_output("2026-07-24"));
    core.set_restaurant("caari");
    assert_eq!(core.snapshot().raw_payload, "");
    core.set_restaurant("tietoteknia");
    assert!(core.load_memory_for_current("2026-07-24"));
    let state = core.snapshot();
    assert_eq!(state.raw_payload, "{}");
    assert_eq!(state.status, FetchStatus::Loaded);
}

#[test]
fn prefetch_skips_the_selected_and_todays_restaurants_and_waits_between_rounds() {
    let mut core = AppCore::new(settings("snellmania", "fi"));
    let stamps: Vec<Option<Option<String>>> = (0..10)
        .map(|i| match i {
            1 => None,
            2 => Some(Some("2026-07-24".to_string())),
            3 => Some(None),
            _ => Some(Some("2026-07-24".to_string())),
        })
        .collect();
    let started = core.prefetch_enabled_restaurants(400_000, "2026-07-24", &stamps);
    let codes: Vec<&str> = started.iter().map(|q| q.requested_code.as_str()).collect();
    assert_eq!(codes, vec!["snellari", "tietoteknia"]);
    assert_eq!(started[0].context.reason, FetchReason::PrefetchMissingCache);
    assert_eq!(started[1].context.reason, FetchReason::PrefetchStaleDate);
    assert_eq!(started[0].context.mode, FetchMode::Background);
    assert!(core.prefetch_enabled_restaurants(500_000, "2026-07-24", &stamps).is_empty());
}

#[test]
fn cycling_wraps_around_the_offered_restaurants() {
    let mut core = AppCore::new(settings("snellmania", "fi"));
    core.cycle_restaurant(-1);
    assert_eq!(core.snapshot().settings.restaurant_code, "caari");
    core.cycle_restaurant(1);
    assert_eq!(core.snapshot().settings.restaurant_code, "snellmania");
    assert!(core.set_restaurant_index(3));
    assert_eq!(core.snapshot().settings.restaurant_code, "tietoteknia");
    assert!(!core.set_restaurant_index(10));
}

#[test]
fn update_checks_do_not_overlap() {
    let mut core = AppCore::new(settings("snellmania", "fi"));
    assert!(core.begin_update_check());
    assert!(!core.begin_update_check());
    core.finish_update_check();
    assert!(core.begin_update_check());
}

#[test]
fn only_non_blank_urls_are_opened() {
    let mut core = AppCore::new(settings("caari", "fi"));
    core.set_restaurant("tietoteknia");
    assert_eq!(
        core.url_to_open(),
        Some("https://www.compass-group.fi/ravintolat-ja-ruokalistat/foodco/kaupungit/kuopio/tietoteknia/".to_string())
    );
    core.set_restaurant("caari");
    assert_eq!(core.url_to_open(), None);
    assert_eq!(release_url_to_open("  "), None);
    assert_eq!(release_url_to_open("https://example.invalid/r"), Some("https://example.invalid/r".to_string()));
}

#[test]
fn fetch_reasons_have_distinct_snake_case_names() {
    use_reason_names();
}

fn use_reason_names() {
    let all = [
        FetchReason::StartupMissingCache, FetchReason::StartupStaleDate, FetchReason::StartupRefreshInterval,
        FetchReason::ManualRefresh, FetchReason::RefreshTimer, FetchReason::MidnightRollover,
        FetchReason::StaleDateCheck, FetchReason::RetryTimer, FetchReason::SelectionMissingCache,
        FetchReason::SelectionStaleDate, FetchReason::SelectionRefreshInterval,
        FetchReason::LanguageSwitchMissingCache, FetchReason::LanguageSwitchStaleDate,
        FetchReason::LanguageSwitchRefreshInterval, FetchReason::PrefetchMissingCache,
        FetchReason::PrefetchStaleDate, FetchReason::PrintTodayCli,
    ];
    for (i, a) in all.iter().enumerate() {
        let name = a.as_str();
        assert!(!name.is_empty() && !name.starts_with('_') && !name.ends_with('_') && !name.contains("__"));
        assert!(name.chars().all(|c| c.is_ascii_lowercase() || c == '_'));
        for (j, b) in all.iter().enumerate() {
            assert_eq!(name == b.as_str(), i == j);
        }
    }
    assert_eq!(FetchReason::ManualRefresh.as_str(), "manual_refresh");
    assert_eq!(FetchReason::PrefetchStaleDate.as_str(), "prefetch_stale_date");
    assert_eq!(FetchReason::PrintTodayCli.as_str(), "print_today_cli");
}
