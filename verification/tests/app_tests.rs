use lunch_tray::app_state::{
    fetch_target_for_values, is_probable_network_error, menu_cache_key, refresh_need_for_target,
    request_state_key, retry_delay_ms_for_failures, RefreshNeed,
};

fn now_epoch_ms() -> i64 {
    let now = time::OffsetDateTime::now_utc();
    (now.unix_timestamp_nanos() / 1_000_000) as i64
}

fn today_key() -> String {
    let now = time::OffsetDateTime::now_utc();
    let date = now.date();
    format!("{:04}-{:02}-{:02}", date.year(), date.month() as u8, date.day())
}

#[test]
fn app_request_state_key_uses_effective_fetch_language() {
    let target = fetch_target_for_values("3488", "en", true);
    assert_eq!(target.effective_language, "fi");
    assert_eq!(target.key, "3488|fi");
}

#[test]
fn mod_request_state_key_uses_effective_fetch_language() {
    let target = fetch_target_for_values("3488", "en", true);
    assert_eq!(target.effective_language, "fi");
    assert_eq!(target.key, "3488|fi");
}

#[test]
fn app_refresh_need_marks_missing_payload_as_missing_cache() {
    let target = fetch_target_for_values("0437", "fi", true);
    assert_eq!(
        refresh_need_for_target(&target, 1440, "", false, now_epoch_ms(), &today_key(), None),
        Some(RefreshNeed::MissingCache)
    );
}

#[test]
fn mod_refresh_need_marks_missing_payload_as_missing_cache() {
    let target = fetch_target_for_values("0437", "fi", true);
    assert_eq!(
        refresh_need_for_target(&target, 1440, "", false, now_epoch_ms(), &today_key(), None),
        Some(RefreshNeed::MissingCache)
    );
}

#[test]
fn app_refresh_need_marks_old_payload_date_as_stale() {
    let target = fetch_target_for_values("0437", "fi", true);
    assert_eq!(
        refresh_need_for_target(&target, 1440, "2001-01-01", true, now_epoch_ms(), &today_key(), Some(now_epoch_ms())),
        Some(RefreshNeed::StaleDate)
    );
}

#[test]
fn mod_refresh_need_marks_old_payload_date_as_stale() {
    let target = fetch_target_for_values("0437", "fi", true);
    assert_eq!(
        refresh_need_for_target(&target, 1440, "2001-01-01", true, now_epoch_ms(), &today_key(), Some(now_epoch_ms())),
        Some(RefreshNeed::StaleDate)
    );
}

#[test]
fn app_retry_delay_caps_after_repeated_failures() {
    assert_eq!(retry_delay_ms_for_failures(1), 10_000);
    assert_eq!(retry_delay_ms_for_failures(2), 30_000);
    assert_eq!(retry_delay_ms_for_failures(3), 60_000);
    assert_eq!(retry_delay_ms_for_failures(4), 300_000);
    assert_eq!(retry_delay_ms_for_failures(10), 300_000);
}

#[test]
fn mod_retry_delay_caps_after_repeated_failures() {
    assert_eq!(retry_delay_ms_for_failures(1), 10_000);
    assert_eq!(retry_delay_ms_for_failures(2), 30_000);
    assert_eq!(retry_delay_ms_for_failures(3), 60_000);
    assert_eq!(retry_delay_ms_for_failures(4), 300_000);
    assert_eq!(retry_delay_ms_for_failures(10), 300_000);
}

#[test]
fn retry_delay_of_zero_failures_is_the_shortest() {
    assert_eq!(retry_delay_ms_for_failures(0), 10_000);
    assert_eq!(retry_delay_ms_for_failures(usize::MAX), 300_000);
}

#[test]
fn refresh_need_is_fresh_for_todays_recent_cache() {
    let target = fetch_target_for_values("tietoteknia", "en", true);
    assert_eq!(target.effective_language, "en");
    let now = 10_000_000;
    assert_eq!(refresh_need_for_target(&target, 60, "2026-07-24", true, now, "2026-07-24", Some(now - 60_000)), None);
    assert_eq!(
        refresh_need_for_target(&target, 60, "2026-07-24", true, now, "2026-07-24", Some(now - 3_600_000)),
        Some(RefreshNeed::RefreshIntervalElapsed)
    );
    assert_eq!(
        refresh_need_for_target(&target, 60, "2026-07-24", true, now, "2026-07-24", None),
        Some(RefreshNeed::MissingCache)
    );
    assert_eq!(refresh_need_for_target(&target, 0, "2026-07-24", true, now, "2026-07-24", None), None);
}

#[test]
fn keys_put_their_parts_in_order() {
    assert_eq!(menu_cache_key("caari", "en"), "en|caari");
    assert_eq!(request_state_key("caari", "fi"), "caari|fi");
}

#[test]
fn network_errors_are_recognized_case_insensitively() {
    assert!(is_probable_network_error("Operation TIMED OUT"));
    assert!(is_probable_network_error("dns error: failed to lookup address"));
    assert!(!is_probable_network_error("unsupported Lunch API response"));
}
