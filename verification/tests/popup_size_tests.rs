use lunch_tray::animation::{
    animation_elapsed, begin_close_animation, begin_open_animation, begin_switch_animation, clear_animation_state,
    start_animation, tick_animation, AnimationTick, PopupAnimationKind,
};
use lunch_tray::app_state::{AppState, FetchStatus};
use lunch_tray::popup_size::{
    line_budget_key, merge_layout_budget, popup_size, target_content_width, CachedLayoutBudget, LineBudgetCache,
    LineLayoutMetrics, RestaurantCacheSignature,
};
use lunch_tray::restaurant::Provider;
use lunch_tray::settings::Settings;

fn settings() -> Settings {
    Settings {
        restaurant_code: "snellmania".to_string(),
        language: "fi".to_string(),
        enable_antell_restaurants: false,
        show_prices: true,
        show_allergens: true,
        highlight_gluten_free: true,
        highlight_veg: true,
        highlight_lactose_free: true,
        animations_enabled: true,
        show_student_price: true,
        show_staff_price: true,
        show_guest_price: true,
        hide_expensive_student_meals: false,
        refresh_minutes: 1440,
        theme: "dark".to_string(),
        widget_scale: "normal".to_string(),
        enable_logging: false,
        last_updated_epoch_ms: 0,
    }
}

const NO_BUDGET: CachedLayoutBudget = CachedLayoutBudget { max_wrapped_lines: None, max_content_width_px: None };

#[test]
fn budgets_keep_the_largest_measurements() {
    let one = merge_layout_budget(NO_BUDGET, LineLayoutMetrics { required_content_width: 400, wrapped_line_count: 12 });
    let two = merge_layout_budget(one, LineLayoutMetrics { required_content_width: 350, wrapped_line_count: 20 });
    assert_eq!(two, CachedLayoutBudget { max_wrapped_lines: Some(20), max_content_width_px: Some(400) });
}

#[test]
fn content_width_follows_the_budget_within_limits() {
    let current = LineLayoutMetrics { required_content_width: 250, wrapped_line_count: 5 };
    assert_eq!(target_content_width(NO_BUDGET, current), 296);
    let wide = CachedLayoutBudget { max_wrapped_lines: None, max_content_width_px: Some(900) };
    assert_eq!(target_content_width(wide, current), 501);
    let mid = CachedLayoutBudget { max_wrapped_lines: None, max_content_width_px: Some(420) };
    assert_eq!(target_content_width(mid, current), 420);
}

#[test]
fn popup_height_grows_with_lines_up_to_the_limit() {
    assert_eq!(popup_size(420, NO_BUDGET, 10, 18), (444, 46 + 10 * 20 + 20));
    let budget = CachedLayoutBudget { max_wrapped_lines: Some(14), max_content_width_px: None };
    assert_eq!(popup_size(296, budget, 10, 18), (320, 46 + 14 * 20 + 20));
    assert_eq!(popup_size(501, budget, 60, 18), (525, 46 + 35 * 20 + 20));
    assert_eq!(popup_size(501, NO_BUDGET, 1, 18), (525, 166));
}

#[test]
fn the_budget_cache_answers_only_for_its_own_key() {
    let s = settings();
    let sigs = vec![RestaurantCacheSignature { code: "snellmania".to_string(), mtime_ms: 5 }];
    let mut cache = LineBudgetCache::new();
    assert_eq!(cache.cached_line_budget(&line_budget_key(&s, "2025-02-03", 96), &sigs), None);
    let budget = CachedLayoutBudget { max_wrapped_lines: Some(9), max_content_width_px: Some(380) };
    cache.update_line_budget_cache(line_budget_key(&s, "2025-02-03", 96), sigs, budget);
    let same = vec![RestaurantCacheSignature { code: "snellmania".to_string(), mtime_ms: 5 }];
    assert_eq!(cache.cached_line_budget(&line_budget_key(&s, "2025-02-03", 96), &same), Some(budget));
    assert_eq!(cache.cached_line_budget(&line_budget_key(&s, "2025-02-04", 96), &same), None);
    assert_eq!(cache.cached_line_budget(&line_budget_key(&s, "2025-02-03", 120), &same), None);
    let newer = vec![RestaurantCacheSignature { code: "snellmania".to_string(), mtime_ms: 6 }];
    assert_eq!(cache.cached_line_budget(&line_budget_key(&s, "2025-02-03", 96), &newer), None);
    let mut other = s.clone();
    other.show_allergens = false;
    assert_eq!(cache.cached_line_budget(&line_budget_key(&other, "2025-02-03", 96), &same), None);
}

fn state() -> AppState {
    AppState {
        settings: settings(),
        status: FetchStatus::Idle,
        loading_started_epoch_ms: 0,
        error_message: String::new(),
        stale_network_error: false,
        today_menu: None,
        restaurant_name: String::new(),
        restaurant_url: String::new(),
        raw_payload: String::new(),
        provider: Provider::LunchApi,
        payload_date: String::new(),
        stale_date: false,
    }
}

#[test]
fn animations_run_for_their_duration_then_finish() {
    let open = begin_open_animation(7, 1_000, &state(), &Vec::new());
    assert_eq!(open.duration_ms, 120);
    assert_eq!(animation_elapsed(&open, 1_060), 60);
    assert_eq!(animation_elapsed(&open, 900), 0);
    assert_eq!(animation_elapsed(&open, 5_000), 120);
    let mut running = Some(open);
    assert_eq!(tick_animation(&mut running, 8, 1_060), AnimationTick::StopTimer);
    assert_eq!(tick_animation(&mut running, 7, 1_060), AnimationTick::Redraw);
    assert_eq!(tick_animation(&mut running, 7, 1_120), AnimationTick::Finished { hide: false });
    assert!(running.is_none());
    assert_eq!(tick_animation(&mut running, 7, 1_200), AnimationTick::StopTimer);
}

#[test]
fn closing_hides_the_window_when_done() {
    let mut closing = Some(begin_close_animation(7, 0, &state(), &Vec::new()));
    assert_eq!(tick_animation(&mut closing, 7, 89), AnimationTick::Redraw);
    assert_eq!(tick_animation(&mut closing, 7, 90), AnimationTick::Finished { hide: true });
}

#[test]
fn switching_and_clearing_animations() {
    let switch = begin_switch_animation(7, 0, &state(), &state(), &Vec::new(), &Vec::new(), -1);
    assert!(matches!(switch.kind, PopupAnimationKind::Switch { direction: -1, .. }));
    let mut running = Some(switch);
    clear_animation_state(&mut running, 8);
    assert!(running.is_some());
    clear_animation_state(&mut running, 7);
    assert!(running.is_none());
    let instant = start_animation(1, 10, 0, PopupAnimationKind::Open { lines: Vec::new(), title: String::new() });
    assert_eq!(instant.duration_ms, 1);
}
