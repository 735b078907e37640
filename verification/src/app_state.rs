//! Application state and the fetch-coordination rules of the tray app.
//!
//! `AppCore` holds what the tray and popup show and the per-request fetch
//! bookkeeping. Its methods decide; the caller performs the I/O they call
//! for (spawning fetches, writing caches, saving settings) and reports back.

use vstd::prelude::*;
use crate::fetch::{FetchContext, FetchMode, FetchOutput, FetchOutputV, FetchReason};
use crate::model::{clone_menu_option, TodayMenu, TodayMenuV};
use crate::restaurant::{
    available_restaurants, effective_fetch_language, fetch_language, position_in, position_of,
    restaurant_count, restaurant_for_code, restaurant_for_shortcut_index, restaurant_lookup,
    restaurants, str_eq, Provider, Restaurant,
};
use crate::seqs::{contains, contains_exec, extend_chars};
use crate::settings::{Settings, SettingsV};
use crate::table::KeyedTable;
use crate::text::{chars_ascii_lower, chars_to_string, owned, seq_ascii_lower, str_chars};

verus! {

// ---------------------------------------------------------------- keys and targets

/// The memory-cache key of a restaurant and UI language: `"language|code"`.
pub open spec fn menu_key(code: Seq<char>, language: Seq<char>) -> Seq<char> {
    language + "|"@ + code
}

/// The request-state key of a restaurant and fetch language: `"code|language"`.
pub open spec fn request_key(code: Seq<char>, effective_language: Seq<char>) -> Seq<char> {
    code + "|"@ + effective_language
}

fn join3(a: &str, b: &str, c: &str) -> (r: String)
    ensures
        r@ == a@ + b@ + c@,
{
    let mut out = str_chars(a);
    extend_chars(&mut out, &str_chars(b));
    extend_chars(&mut out, &str_chars(c));
    chars_to_string(&out)
}

/// The memory-cache key of what the state selects: the selected
/// restaurant's current code and the UI language.
pub open spec fn current_menu_key(st: AppStateV) -> Seq<char> {
    menu_key(restaurant_lookup(st.settings.restaurant_code, st.settings.enable_antell_restaurants).code@, st.settings.language)
}

/// The memory-cache key for a restaurant and UI language.
pub fn menu_cache_key(code: &str, language: &str) -> (r: String)
    ensures
        r@ == menu_key(code@, language@),
{
    join3(language, "|", code)
}

/// The request-state key for a restaurant and fetch language.
pub fn request_state_key(code: &str, effective_language: &str) -> (r: String)
    ensures
        r@ == request_key(code@, effective_language@),
{
    join3(code, "|", effective_language)
}

/// What one fetch is about: the restaurant, the UI language, the language
/// the menu is fetched in, and the key of its request bookkeeping.
pub struct FetchTarget {
    pub restaurant: Restaurant,
    pub ui_language: String,
    pub effective_language: String,
    pub key: String,
}

pub open spec fn target_ok(t: FetchTarget, code: Seq<char>, language: Seq<char>, enable_antell: bool) -> bool {
    &&& t.restaurant == restaurant_lookup(code, enable_antell)
    &&& t.ui_language@ == language
    &&& t.effective_language@ == fetch_language(t.restaurant.finnish_only, language)
    &&& t.key@ == request_key(code, t.effective_language@)
}

/// The fetch target of a restaurant code in a UI language.
pub fn fetch_target_for_values(code: &str, language: &str, enable_antell: bool) -> (r: FetchTarget)
    ensures
        target_ok(r, code@, language@, enable_antell),
{
    let restaurant = restaurant_for_code(code, enable_antell);
    let effective_language = effective_fetch_language(restaurant, language);
    let key = request_state_key(code, effective_language.as_str());
    FetchTarget { restaurant, ui_language: owned(language), key, effective_language }
}

/// The fetch target of a restaurant code in the settings' UI language.
pub fn fetch_target_for_code(settings: &Settings, code: &str, enable_antell: bool) -> (r: FetchTarget)
    ensures
        target_ok(r, code@, settings.language@, enable_antell),
{
    fetch_target_for_values(code, settings.language.as_str(), enable_antell)
}

// ---------------------------------------------------------------- small rules

/// Fragments of error messages that point at a network problem.
pub open spec fn network_tokens() -> Seq<Seq<char>> {
    seq![
        "timed out"@, "timeout"@, "dns"@, "network"@, "connection"@, "connect"@, "host"@,
        "resolve"@, "name or service not known"@, "temporary failure"@, "connection reset"@,
        "connection refused"@, "tls"@, "certificate"@, "os error"@,
    ]
}

/// Whether an error message (ASCII-lower-cased) mentions a network problem.
pub open spec fn probable_network_error(message: Seq<char>) -> bool {
    exists|k: int| 0 <= k < network_tokens().len() && contains(seq_ascii_lower(message), #[trigger] network_tokens()[k])
}

/// Whether a fetch error looks like a network problem.
pub fn is_probable_network_error(message: &str) -> (r: bool)
    ensures
        r == probable_network_error(message@),
{
    let lower = chars_ascii_lower(&str_chars(message));
    let tokens = vec![
        "timed out", "timeout", "dns", "network", "connection", "connect", "host", "resolve",
        "name or service not known", "temporary failure", "connection reset",
        "connection refused", "tls", "certificate", "os error",
    ];
    let ghost toks = tokens@.map_values(|t: &str| t@);
    assert(toks =~= network_tokens());
    let mut k: usize = 0;
    while k < tokens.len()
        invariant
            k <= tokens.len(),
            toks == tokens@.map_values(|t: &str| t@),
            toks == network_tokens(),
            lower@ == seq_ascii_lower(message@),
            forall|j: int| 0 <= j < k ==> !contains(lower@, #[trigger] toks[j]),
        decreases tokens.len() - k,
    {
        let t = str_chars(tokens[k]);
        assert(t@ == toks[k as int]);
        if contains_exec(&lower, &t) {
            return true;
        }
        k += 1;
    }
    false
}

/// The delay before retrying after `consecutive_failures` failures in a row.
pub open spec fn retry_delay(consecutive_failures: int) -> u32 {
    if consecutive_failures <= 1 {
        10_000
    } else if consecutive_failures == 2 {
        30_000
    } else if consecutive_failures == 3 {
        60_000
    } else {
        300_000
    }
}

/// Delay before retrying a failed fetch, growing with consecutive failures.
pub fn retry_delay_ms_for_failures(consecutive_failures: usize) -> (r: u32)
    ensures
        r == retry_delay(consecutive_failures as int),
{
    match consecutive_failures {
        0 | 1 => 10_000,
        2 => 30_000,
        3 => 60_000,
        _ => 5 * 60_000,
    }
}

/// `a + b` clipped to the `i64` range.
pub open spec fn sat_add(a: int, b: int) -> i64 {
    if a + b > i64::MAX { i64::MAX } else if a + b < i64::MIN { i64::MIN } else { (a + b) as i64 }
}

/// `a - b` clipped to the `i64` range.
pub open spec fn sat_sub(a: int, b: int) -> i64 {
    if a - b > i64::MAX { i64::MAX } else if a - b < i64::MIN { i64::MIN } else { (a - b) as i64 }
}

/// `i64::saturating_add`.
pub fn saturating_add_i64(a: i64, b: i64) -> (r: i64)
    ensures
        r == sat_add(a as int, b as int),
{
    if b > 0 && a > i64::MAX - b {
        i64::MAX
    } else if b < 0 && a < i64::MIN - b {
        i64::MIN
    } else {
        a + b
    }
}

/// `i64::saturating_sub`.
pub fn saturating_sub_i64(a: i64, b: i64) -> (r: i64)
    ensures
        r == sat_sub(a as int, b as int),
{
    if b < 0 && a > i64::MAX + b {
        i64::MAX
    } else if b > 0 && a < i64::MIN + b {
        i64::MIN
    } else {
        a - b
    }
}

/// Why a restaurant's menu should be fetched again.
#[derive(Clone, Copy, Debug, PartialEq, Eq, Structural)]
pub enum RefreshNeed {
    MissingCache,
    StaleDate,
    RefreshIntervalElapsed,
}

/// Whether (and why) a menu needs fetching: no payload at all, a payload
/// for another day than `today`, or a cache file (modified at
/// `cache_mtime_ms`) older than the refresh interval. No interval check
/// when the interval is zero.
pub open spec fn refresh_need(refresh_minutes: u32, payload_date: Seq<char>, has_payload: bool, now_ms: i64, today: Seq<char>, cache_mtime_ms: Option<i64>) -> Option<RefreshNeed> {
    if !has_payload {
        Some(RefreshNeed::MissingCache)
    } else if payload_date.len() > 0 && payload_date != today {
        Some(RefreshNeed::StaleDate)
    } else if refresh_minutes == 0 {
        None
    } else {
        match cache_mtime_ms {
            None => Some(RefreshNeed::MissingCache),
            Some(mtime) => if sat_sub(now_ms as int, mtime as int) >= refresh_minutes as int * 60_000 {
                Some(RefreshNeed::RefreshIntervalElapsed)
            } else {
                None
            },
        }
    }
}

/// Decides whether a target's menu needs fetching. `today` is the local
/// date key and `cache_mtime_ms` the modification time of the target's
/// cache file, both read by the caller.
pub fn refresh_need_for_target(
    target: &FetchTarget,
    refresh_minutes: u32,
    payload_date: &str,
    has_payload: bool,
    now_ms: i64,
    today: &str,
    cache_mtime_ms: Option<i64>,
) -> (r: Option<RefreshNeed>)
    ensures
        r == refresh_need(refresh_minutes, payload_date@, has_payload, now_ms, today@, cache_mtime_ms),
{
    if !has_payload {
        return Some(RefreshNeed::MissingCache);
    }
    if str_chars(payload_date).len() > 0 && !str_eq(payload_date, today) {
        return Some(RefreshNeed::StaleDate);
    }
    if refresh_minutes == 0 {
        return None;
    }
    match cache_mtime_ms {
        None => Some(RefreshNeed::MissingCache),
        Some(mtime) => {
            let age_ms = saturating_sub_i64(now_ms, mtime);
            if age_ms as i128 >= (refresh_minutes as i128) * 60_000 {
                Some(RefreshNeed::RefreshIntervalElapsed)
            } else {
                None
            }
        },
    }
}


// ---------------------------------------------------------------- state

/// High-level fetch status for the currently selected restaurant.
#[derive(Clone, Copy, Debug, PartialEq, Eq, Structural)]
pub enum FetchStatus {
    Idle,
    Loading,
    Loaded,
    Stale,
    Error,
}

/// Snapshot of UI-visible application state consumed by popup and tray rendering.
pub struct AppState {
    pub settings: Settings,
    pub status: FetchStatus,
    pub loading_started_epoch_ms: i64,
    pub error_message: String,
    pub stale_network_error: bool,
    pub today_menu: Option<TodayMenu>,
    pub restaurant_name: String,
    pub restaurant_url: String,
    pub raw_payload: String,
    pub provider: Provider,
    pub payload_date: String,
    pub stale_date: bool,
}

/// The application state as plain values.
pub struct AppStateV {
    pub settings: SettingsV,
    pub status: FetchStatus,
    pub loading_started_epoch_ms: i64,
    pub error_message: Seq<char>,
    pub stale_network_error: bool,
    pub today_menu: Option<TodayMenuV>,
    pub restaurant_name: Seq<char>,
    pub restaurant_url: Seq<char>,
    pub raw_payload: Seq<char>,
    pub provider: Provider,
    pub payload_date: Seq<char>,
    pub stale_date: bool,
}

impl DeepView for AppState {
    type V = AppStateV;

    open spec fn deep_view(&self) -> AppStateV {
        AppStateV {
            settings: self.settings.deep_view(),
            status: self.status,
            loading_started_epoch_ms: self.loading_started_epoch_ms,
            error_message: self.error_message@,
            stale_network_error: self.stale_network_error,
            today_menu: self.today_menu.deep_view(),
            restaurant_name: self.restaurant_name@,
            restaurant_url: self.restaurant_url@,
            raw_payload: self.raw_payload@,
            provider: self.provider,
            payload_date: self.payload_date@,
            stale_date: self.stale_date,
        }
    }
}

impl Clone for AppState {
    fn clone(&self) -> (r: Self)
        ensures
            r.deep_view() == self.deep_view(),
    {
        AppState {
            settings: self.settings.clone(),
            status: self.status,
            loading_started_epoch_ms: self.loading_started_epoch_ms,
            error_message: self.error_message.clone(),
            stale_network_error: self.stale_network_error,
            today_menu: clone_menu_option(&self.today_menu),
            restaurant_name: self.restaurant_name.clone(),
            restaurant_url: self.restaurant_url.clone(),
            raw_payload: self.raw_payload.clone(),
            provider: self.provider,
            payload_date: self.payload_date.clone(),
            stale_date: self.stale_date,
        }
    }
}

/// A fetched menu kept in memory for quick switching.
pub struct MemoryMenuEntry {
    pub ok: bool,
    pub error_message: String,
    pub today_menu: Option<TodayMenu>,
    pub restaurant_name: String,
    pub restaurant_url: String,
    pub provider: Provider,
    pub raw_payload: String,
    pub payload_date: String,
}

/// A memory-cache entry as plain values.
pub struct MemoryMenuEntryV {
    pub ok: bool,
    pub error_message: Seq<char>,
    pub today_menu: Option<TodayMenuV>,
    pub restaurant_name: Seq<char>,
    pub restaurant_url: Seq<char>,
    pub provider: Provider,
    pub raw_payload: Seq<char>,
    pub payload_date: Seq<char>,
}

impl DeepView for MemoryMenuEntry {
    type V = MemoryMenuEntryV;

    open spec fn deep_view(&self) -> MemoryMenuEntryV {
        MemoryMenuEntryV {
            ok: self.ok,
            error_message: self.error_message@,
            today_menu: self.today_menu.deep_view(),
            restaurant_name: self.restaurant_name@,
            restaurant_url: self.restaurant_url@,
            provider: self.provider,
            raw_payload: self.raw_payload@,
            payload_date: self.payload_date@,
        }
    }
}

/// The memory-cache entry a fetch result becomes.
pub open spec fn entry_of(r: FetchOutputV) -> MemoryMenuEntryV {
    MemoryMenuEntryV {
        ok: r.ok,
        error_message: r.error_message,
        today_menu: r.today_menu,
        restaurant_name: r.restaurant_name,
        restaurant_url: r.restaurant_url,
        provider: r.provider,
        raw_payload: r.raw_json,
        payload_date: r.payload_date,
    }
}

/// Fetch bookkeeping of one request key.
#[derive(Clone, Copy)]
pub struct RequestState {
    pub in_flight: bool,
    pub last_attempt_epoch_ms: i64,
    pub last_success_epoch_ms: i64,
    pub last_failure_epoch_ms: i64,
    pub cooldown_until_epoch_ms: i64,
    pub consecutive_failures: usize,
    pub last_reason: Option<FetchReason>,
}

pub open spec fn fresh_request_state() -> RequestState {
    RequestState {
        in_flight: false,
        last_attempt_epoch_ms: 0,
        last_success_epoch_ms: 0,
        last_failure_epoch_ms: 0,
        cooldown_until_epoch_ms: 0,
        consecutive_failures: 0,
        last_reason: None,
    }
}

/// A request state with nothing recorded yet.
pub fn new_request_state() -> (r: RequestState)
    ensures
        r == fresh_request_state(),
{
    RequestState {
        in_flight: false,
        last_attempt_epoch_ms: 0,
        last_success_epoch_ms: 0,
        last_failure_epoch_ms: 0,
        cooldown_until_epoch_ms: 0,
        consecutive_failures: 0,
        last_reason: None,
    }
}

/// The state of a request key, a fresh one when none is recorded.
pub open spec fn request_or_fresh(m: Map<Seq<char>, RequestState>, key: Seq<char>) -> RequestState {
    if m.contains_key(key) { m[key] } else { fresh_request_state() }
}

/// The fetch reasons a refresh check reports for each kind of need.
#[derive(Clone, Copy)]
pub struct RefreshNeedReasons {
    pub missing: FetchReason,
    pub stale: FetchReason,
    pub interval: FetchReason,
}

/// How a fetch is started.
#[derive(Clone, Copy)]
pub struct StartOptions {
    pub mark_loading_when_empty: bool,
    pub bypass_cooldown: bool,
}

/// A fetch the caller should run: the settings to fetch with (their
/// restaurant code set to the requested one), and what to report back.
pub struct FetchRequest {
    pub settings: Settings,
    pub context: FetchContext,
    pub requested_code: String,
    pub requested_language: String,
    pub requested_effective_language: String,
    pub request_key: String,
}

/// Message handed back when a menu fetch finishes.
pub struct FetchMessage {
    pub requested_code: String,
    pub requested_language: String,
    pub requested_effective_language: String,
    pub request_key: String,
    pub context: FetchContext,
    pub result: FetchOutput,
}

/// Outcome of applying a completed fetch to the current application state.
#[derive(Clone, Copy, Debug, PartialEq, Eq, Structural)]
pub enum FetchApplyOutcome {
    CurrentSuccess,
    CurrentFailure,
    BackgroundSuccess,
    BackgroundFailure,
}

/// Result of comparing the running app version against the latest published release.
pub enum UpdateCheckOutcome {
    LatestPublished { current_version: String, release_url: String },
    UpdateAvailable { current_version: String, latest_version: String, release_url: String },
    NewerThanLatestPublished { current_version: String, latest_version: String, releases_url: String },
    Failed { message: String },
}

/// Message handed back when an update check finishes.
pub struct UpdateCheckMessage {
    pub outcome: UpdateCheckOutcome,
}

/// How long a successful fetch without a menu for today keeps its key quiet.
pub const STALE_NO_MENU_COOLDOWN_MS: u32 = 600_000;

/// The state a newly selected restaurant or language starts from: nothing
/// loaded, nothing pending.
pub open spec fn cleared(st: AppStateV) -> AppStateV {
    AppStateV {
        raw_payload: Seq::empty(),
        today_menu: None,
        payload_date: Seq::empty(),
        stale_date: false,
        status: FetchStatus::Idle,
        loading_started_epoch_ms: 0,
        stale_network_error: false,
        ..st
    }
}

/// Whether a payload dated `payload_date` is out of date on `today`.
pub open spec fn stale_for(payload_date: Seq<char>, today: Seq<char>) -> bool {
    payload_date.len() > 0 && payload_date != today
}

/// The state showing a fetch result (cached or fresh).
pub open spec fn showing(st: AppStateV, r: FetchOutputV, today: Seq<char>) -> AppStateV {
    AppStateV {
        raw_payload: r.raw_json,
        restaurant_name: r.restaurant_name,
        restaurant_url: r.restaurant_url,
        today_menu: r.today_menu,
        provider: r.provider,
        payload_date: r.payload_date,
        stale_date: stale_for(r.payload_date, today),
        status: if r.ok { FetchStatus::Loaded } else { FetchStatus::Error },
        loading_started_epoch_ms: 0,
        error_message: if r.ok { Seq::empty() } else { r.error_message },
        stale_network_error: false,
        ..st
    }
}


// ---------------------------------------------------------------- the core

/// The application state and fetch bookkeeping behind the tray and popup.
pub struct AppCore {
    pub state: AppState,
    pub request_states: KeyedTable<RequestState>,
    pub memory_menu_cache: KeyedTable<MemoryMenuEntry>,
    pub last_prefetch_ms: i64,
    pub update_check_in_flight: bool,
}

/// The core as plain values.
pub struct AppCoreV {
    pub state: AppStateV,
    pub requests: Map<Seq<char>, RequestState>,
    pub memory: Map<Seq<char>, MemoryMenuEntryV>,
    pub last_prefetch_ms: i64,
    pub update_check_in_flight: bool,
}

/// The same core with other settings.
pub open spec fn with_settings(v: AppCoreV, s: SettingsV) -> AppCoreV {
    AppCoreV { state: AppStateV { settings: s, ..v.state }, ..v }
}

/// The same core with another state.
pub open spec fn with_state(v: AppCoreV, st: AppStateV) -> AppCoreV {
    AppCoreV { state: st, ..v }
}

pub open spec fn url_of(r: Restaurant) -> Seq<char> {
    match r.url {
        Some(u) => u@,
        None => Seq::empty(),
    }
}

/// The state after selecting restaurant `r` under the code `code`.
pub open spec fn selected(st: AppStateV, code: Seq<char>, r: Restaurant) -> AppStateV {
    cleared(AppStateV {
        settings: SettingsV { restaurant_code: code, ..st.settings },
        provider: r.provider,
        restaurant_url: url_of(r),
        ..st
    })
}

/// A memory-cache entry read back as a fetch result.
pub open spec fn output_of(e: MemoryMenuEntryV) -> FetchOutputV {
    FetchOutputV {
        ok: e.ok,
        is_stale: false,
        error_message: e.error_message,
        today_menu: e.today_menu,
        restaurant_name: e.restaurant_name,
        restaurant_url: e.restaurant_url,
        provider: e.provider,
        raw_json: e.raw_payload,
        payload_date: e.payload_date,
    }
}

/// The request bookkeeping after a fetch for `key` finished, and the
/// cooldown it imposes (zero after a success).
pub open spec fn finished(m: Map<Seq<char>, RequestState>, key: Seq<char>, reason: FetchReason, ok: bool, now: i64) -> (Map<Seq<char>, RequestState>, u32) {
    let e = request_or_fresh(m, key);
    if ok {
        (m.insert(key, RequestState {
            in_flight: false,
            last_reason: Some(reason),
            last_success_epoch_ms: now,
            consecutive_failures: 0,
            cooldown_until_epoch_ms: 0,
            ..e
        }), 0)
    } else {
        let failures = if e.consecutive_failures == usize::MAX { usize::MAX } else { (e.consecutive_failures + 1) as usize };
        let delay = retry_delay(failures as int);
        (m.insert(key, RequestState {
            in_flight: false,
            last_reason: Some(reason),
            last_failure_epoch_ms: now,
            consecutive_failures: failures,
            cooldown_until_epoch_ms: sat_add(now as int, delay as int),
            ..e
        }), delay)
    }
}

/// Text without leading and trailing whitespace (as `str::trim`).
pub open spec fn trim_ws(s: Seq<char>) -> Seq<char> {
    crate::seqs::trim_end_ws(crate::seqs::trim_start_by(s, |c: char| crate::text::unicode_white_space(c)))
}

/// A successful fetch that has no menu for today, dated another day, puts
/// an existing request key on a fixed cooldown.
pub open spec fn stale_cooldown(m: Map<Seq<char>, RequestState>, key: Seq<char>, r: FetchOutputV, now: i64, today: Seq<char>) -> (Map<Seq<char>, RequestState>, u32) {
    let pd = trim_ws(r.payload_date);
    if !r.ok || r.today_menu is Some || pd.len() == 0 || pd == today || !m.contains_key(key) {
        (m, 0)
    } else {
        (m.insert(key, RequestState { cooldown_until_epoch_ms: sat_add(now as int, STALE_NO_MENU_COOLDOWN_MS as int), ..m[key] }), STALE_NO_MENU_COOLDOWN_MS)
    }
}

/// The effective fetch language of the selected restaurant.
pub open spec fn current_effective_language(st: AppStateV) -> Seq<char> {
    fetch_language(restaurant_lookup(st.settings.restaurant_code, st.settings.enable_antell_restaurants).finnish_only, st.settings.language)
}

/// The state after applying a fetch result.
pub open spec fn applied_state(st: AppStateV, r: FetchOutputV, is_current: bool, now: i64, today: Seq<char>) -> AppStateV {
    if !is_current {
        st
    } else if r.ok {
        AppStateV { settings: SettingsV { last_updated_epoch_ms: now, ..st.settings }, ..showing(st, r, today) }
    } else if st.raw_payload.len() > 0 {
        AppStateV {
            status: FetchStatus::Stale,
            loading_started_epoch_ms: 0,
            stale_network_error: probable_network_error(r.error_message),
            error_message: r.error_message,
            ..st
        }
    } else {
        AppStateV {
            status: FetchStatus::Error,
            loading_started_epoch_ms: 0,
            stale_network_error: false,
            error_message: r.error_message,
            ..st
        }
    }
}

/// The UI languages whose cache should receive a successful result.
pub open spec fn persist_languages(st: AppStateV, r: FetchOutputV, is_current: bool, requested_language: Seq<char>) -> Seq<Seq<char>> {
    if !r.ok || r.raw_json.len() == 0 {
        Seq::empty()
    } else if is_current && st.settings.language != requested_language {
        seq![requested_language, st.settings.language]
    } else {
        seq![requested_language]
    }
}

/// What the caller should do after a fetch result was applied: the
/// outcome, the result itself, and the UI languages to cache it under
/// (each cached language then goes to `store_memory_from_fetch_output`).
pub struct FetchApplied {
    pub outcome: FetchApplyOutcome,
    pub result: FetchOutput,
    pub requested_code: String,
    pub persist_languages: Vec<String>,
}

pub open spec fn need_reason(need: Option<RefreshNeed>, reasons: RefreshNeedReasons, refresh_minutes: u32) -> Option<FetchReason> {
    match need {
        None => None,
        Some(RefreshNeed::MissingCache) => Some(reasons.missing),
        Some(RefreshNeed::StaleDate) => Some(reasons.stale),
        Some(RefreshNeed::RefreshIntervalElapsed) => if refresh_minutes == 0 { None } else { Some(reasons.interval) },
    }
}

/// Why a restaurant should be prefetched: no cache file, or a cache file
/// from another day (or of unknown date).
pub open spec fn prefetch_need_spec(cache_present: bool, cache_date: Option<Seq<char>>, today: Seq<char>) -> Option<FetchReason> {
    if !cache_present {
        Some(FetchReason::PrefetchMissingCache)
    } else {
        match cache_date {
            Some(d) => if d != today { Some(FetchReason::PrefetchStaleDate) } else { None },
            None => Some(FetchReason::PrefetchStaleDate),
        }
    }
}

/// Why a restaurant should be prefetched, from the date of its cache file.
pub fn prefetch_need(cache_present: bool, cache_date: Option<&str>, today: &str) -> (r: Option<FetchReason>)
    ensures
        r == prefetch_need_spec(cache_present, match cache_date { Some(d) => Some(d@), None => None }, today@),
{
    if !cache_present {
        return Some(FetchReason::PrefetchMissingCache);
    }
    match cache_date {
        Some(d) => if !str_eq(d, today) { Some(FetchReason::PrefetchStaleDate) } else { None },
        None => Some(FetchReason::PrefetchStaleDate),
    }
}

/// The restaurants other than the selected one, in menu order.
pub open spec fn others(list: Seq<Restaurant>, code: Seq<char>) -> Seq<Restaurant>
    decreases list.len(),
{
    if list.len() == 0 {
        Seq::empty()
    } else {
        let p = others(list.drop_last(), code);
        if list.last().code@ == code { p } else { p.push(list.last()) }
    }
}

/// The release page to open: the given URL, unless it is blank.
pub fn release_url_to_open(url: &str) -> (r: Option<String>)
    ensures
        match r {
            Some(u) => u@ == url@ && trim_ws(url@).len() > 0,
            None => trim_ws(url@).len() == 0,
        },
{
    if trim_ws_chars(&str_chars(url)).len() == 0 {
        None
    } else {
        Some(owned(url))
    }
}

pub(crate) fn trim_ws_chars(v: &[char]) -> (r: Vec<char>)
    ensures
        r@ == trim_ws(v@),
{
    let mut start: usize = 0;
    assert(v@.subrange(0, v.len() as int) =~= v@);
    while start < v.len() && crate::text::char_is_whitespace(v[start])
        invariant
            start <= v.len(),
            crate::seqs::trim_start_by(v@, |c: char| crate::text::unicode_white_space(c))
                == crate::seqs::trim_start_by(v@.subrange(start as int, v.len() as int), |c: char| crate::text::unicode_white_space(c)),
        decreases v.len() - start,
    {
        let ghost rest = v@.subrange(start as int, v.len() as int);
        assert(rest.drop_first() =~= v@.subrange(start + 1, v.len() as int));
        assert(rest[0] == v@[start as int]);
        start += 1;
    }
    let head = crate::seqs::slice_chars(v, start, v.len());
    crate::seqs::trim_end_ws_chars(&head)
}

impl AppCore {
    pub open spec fn view(&self) -> AppCoreV {
        AppCoreV {
            state: self.state.deep_view(),
            requests: self.request_states@,
            memory: self.memory_menu_cache@.map_values(|e: MemoryMenuEntry| e.deep_view()),
            last_prefetch_ms: self.last_prefetch_ms,
            update_check_in_flight: self.update_check_in_flight,
        }
    }

    pub open spec fn wf(&self) -> bool {
        self.request_states.wf() && self.memory_menu_cache.wf()
    }

    /// A core for the given settings, nothing loaded yet.
    pub fn new(settings: Settings) -> (r: AppCore)
        ensures
            r.wf(),
            r.view() == (AppCoreV {
                state: AppStateV {
                    settings: settings.deep_view(),
                    status: FetchStatus::Idle,
                    loading_started_epoch_ms: 0,
                    error_message: Seq::empty(),
                    stale_network_error: false,
                    today_menu: None,
                    restaurant_name: Seq::empty(),
                    restaurant_url: Seq::empty(),
                    raw_payload: Seq::empty(),
                    provider: restaurant_lookup(settings.restaurant_code@, settings.enable_antell_restaurants).provider,
                    payload_date: Seq::empty(),
                    stale_date: false,
                },
                requests: Map::empty(),
                memory: Map::empty(),
                last_prefetch_ms: 0,
                update_check_in_flight: false,
            }),
    {
        let provider = restaurant_for_code(settings.restaurant_code.as_str(), settings.enable_antell_restaurants).provider;
        let memory_menu_cache: KeyedTable<MemoryMenuEntry> = KeyedTable::new();
        let r = AppCore {
            state: AppState {
                settings,
                status: FetchStatus::Idle,
                loading_started_epoch_ms: 0,
                error_message: String::new(),
                stale_network_error: false,
                today_menu: None,
                restaurant_name: String::new(),
                restaurant_url: String::new(),
                raw_payload: String::new(),
                provider,
                payload_date: String::new(),
                stale_date: false,
            },
            request_states: KeyedTable::new(),
            memory_menu_cache,
            last_prefetch_ms: 0,
            update_check_in_flight: false,
        };
        assert(r.view().memory =~= Map::<Seq<char>, MemoryMenuEntryV>::empty());
        r
    }

    /// Returns a cloned snapshot of the current UI-visible state.
    pub fn snapshot(&self) -> (r: AppState)
        ensures
            r.deep_view() == self.state.deep_view(),
    {
        self.state.clone()
    }

    /// The fetch target of the selected restaurant.
    pub fn current_target(&self) -> (r: FetchTarget)
        ensures
            target_ok(r, self.state.settings.restaurant_code@, self.state.settings.language@,
                self.state.settings.enable_antell_restaurants),
    {
        fetch_target_for_code(
            &self.state.settings,
            self.state.settings.restaurant_code.as_str(),
            self.state.settings.enable_antell_restaurants,
        )
    }

    /// The web page to open for the selected restaurant: its URL, when it
    /// has one.
    pub fn url_to_open(&self) -> (r: Option<String>)
        ensures
            match r {
                Some(u) => u@ == self.state.restaurant_url@ && u@.len() > 0,
                None => self.state.restaurant_url@.len() == 0,
            },
    {
        if str_chars(self.state.restaurant_url.as_str()).len() == 0 {
            None
        } else {
            Some(self.state.restaurant_url.clone())
        }
    }

    /// Returns the configured automatic refresh interval in minutes.
    pub fn refresh_minutes(&self) -> (r: u32)
        ensures
            r == self.state.settings.refresh_minutes,
    {
        self.state.settings.refresh_minutes
    }

    /// Toggles whether menu headings show prices.
    pub fn toggle_show_prices(&mut self)
        requires old(self).wf(),
        ensures
            final(self).wf(),
            final(self).view() == with_settings(old(self).view(), SettingsV { show_prices: !old(self).state.settings.show_prices, ..old(self).view().state.settings }),
    {
        self.state.settings.show_prices = !self.state.settings.show_prices;
    }

    /// Toggles whether allergen suffixes are rendered.
    pub fn toggle_show_allergens(&mut self)
        requires old(self).wf(),
        ensures
            final(self).wf(),
            final(self).view() == with_settings(old(self).view(), SettingsV { show_allergens: !old(self).state.settings.show_allergens, ..old(self).view().state.settings }),
    {
        self.state.settings.show_allergens = !self.state.settings.show_allergens;
    }

    /// Toggles gluten-free highlighting.
    pub fn toggle_highlight_gluten_free(&mut self)
        requires old(self).wf(),
        ensures
            final(self).wf(),
            final(self).view() == with_settings(old(self).view(), SettingsV { highlight_gluten_free: !old(self).state.settings.highlight_gluten_free, ..old(self).view().state.settings }),
    {
        self.state.settings.highlight_gluten_free = !self.state.settings.highlight_gluten_free;
    }

    /// Toggles vegetarian highlighting.
    pub fn toggle_highlight_veg(&mut self)
        requires old(self).wf(),
        ensures
            final(self).wf(),
            final(self).view() == with_settings(old(self).view(), SettingsV { highlight_veg: !old(self).state.settings.highlight_veg, ..old(self).view().state.settings }),
    {
        self.state.settings.highlight_veg = !self.state.settings.highlight_veg;
    }

    /// Toggles lactose-free highlighting.
    pub fn toggle_highlight_lactose_free(&mut self)
        requires old(self).wf(),
        ensures
            final(self).wf(),
            final(self).view() == with_settings(old(self).view(), SettingsV { highlight_lactose_free: !old(self).state.settings.highlight_lactose_free, ..old(self).view().state.settings }),
    {
        self.state.settings.highlight_lactose_free = !self.state.settings.highlight_lactose_free;
    }

    /// Toggles popup open/close/switch animations.
    pub fn toggle_animations(&mut self)
        requires old(self).wf(),
        ensures
            final(self).wf(),
            final(self).view() == with_settings(old(self).view(), SettingsV { animations_enabled: !old(self).state.settings.animations_enabled, ..old(self).view().state.settings }),
    {
        self.state.settings.animations_enabled = !self.state.settings.animations_enabled;
    }

    /// Toggles student price visibility in Compass price strings.
    pub fn toggle_show_student_price(&mut self)
        requires old(self).wf(),
        ensures
            final(self).wf(),
            final(self).view() == with_settings(old(self).view(), SettingsV { show_student_price: !old(self).state.settings.show_student_price, ..old(self).view().state.settings }),
    {
        self.state.settings.show_student_price = !self.state.settings.show_student_price;
    }

    /// Toggles staff price visibility in Compass price strings.
    pub fn toggle_show_staff_price(&mut self)
        requires old(self).wf(),
        ensures
            final(self).wf(),
            final(self).view() == with_settings(old(self).view(), SettingsV { show_staff_price: !old(self).state.settings.show_staff_price, ..old(self).view().state.settings }),
    {
        self.state.settings.show_staff_price = !self.state.settings.show_staff_price;
    }

    /// Toggles guest price visibility in Compass price strings.
    pub fn toggle_show_guest_price(&mut self)
        requires old(self).wf(),
        ensures
            final(self).wf(),
            final(self).view() == with_settings(old(self).view(), SettingsV { show_guest_price: !old(self).state.settings.show_guest_price, ..old(self).view().state.settings }),
    {
        self.state.settings.show_guest_price = !self.state.settings.show_guest_price;
    }

    /// Toggles hiding expensive student meals from rendered menus.
    pub fn toggle_hide_expensive_student_meals(&mut self)
        requires old(self).wf(),
        ensures
            final(self).wf(),
            final(self).view() == with_settings(old(self).view(), SettingsV { hide_expensive_student_meals: !old(self).state.settings.hide_expensive_student_meals, ..old(self).view().state.settings }),
    {
        self.state.settings.hide_expensive_student_meals = !self.state.settings.hide_expensive_student_meals;
    }

    /// Toggles diagnostic logging; returns whether logging is now on.
    pub fn toggle_logging(&mut self) -> (r: bool)
        requires old(self).wf(),
        ensures
            final(self).wf(),
            r == !old(self).state.settings.enable_logging,
            final(self).view() == with_settings(old(self).view(), SettingsV { enable_logging: r, ..old(self).view().state.settings }),
    {
        self.state.settings.enable_logging = !self.state.settings.enable_logging;
        self.state.settings.enable_logging
    }

    /// Updates the configured automatic refresh interval in minutes.
    pub fn set_refresh_minutes(&mut self, minutes: u32)
        requires old(self).wf(),
        ensures
            final(self).wf(),
            final(self).view() == with_settings(old(self).view(), SettingsV { refresh_minutes: minutes, ..old(self).view().state.settings }),
    {
        self.state.settings.refresh_minutes = minutes;
    }

    /// Changes the active popup theme (given in its normalized form).
    pub fn set_theme(&mut self, theme: &str)
        requires old(self).wf(),
        ensures
            final(self).wf(),
            final(self).view() == with_settings(old(self).view(), SettingsV { theme: theme@, ..old(self).view().state.settings }),
    {
        self.state.settings.theme = owned(theme);
    }

    /// Changes the popup scale preset (given in its normalized form).
    pub fn set_widget_scale(&mut self, value: &str)
        requires old(self).wf(),
        ensures
            final(self).wf(),
            final(self).view() == with_settings(old(self).view(), SettingsV { widget_scale: value@, ..old(self).view().state.settings }),
    {
        self.state.settings.widget_scale = owned(value);
    }

    fn clear_loaded(&mut self)
        requires old(self).wf(),
        ensures
            final(self).wf(),
            final(self).view() == with_state(old(self).view(), cleared(old(self).view().state)),
    {
        self.state.raw_payload = String::new();
        self.state.today_menu = None;
        self.state.payload_date = String::new();
        self.state.stale_date = false;
        self.state.status = FetchStatus::Idle;
        self.state.loading_started_epoch_ms = 0;
        self.state.stale_network_error = false;
    }

    /// Changes the selected restaurant by its stable restaurant code.
    pub fn set_restaurant(&mut self, code: &str)
        requires old(self).wf(),
        ensures
            final(self).wf(),
            final(self).view() == with_state(old(self).view(), selected(old(self).view().state, code@,
                restaurant_lookup(code@, old(self).state.settings.enable_antell_restaurants))),
    {
        self.state.settings.restaurant_code = owned(code);
        let restaurant = restaurant_for_code(code, self.state.settings.enable_antell_restaurants);
        self.state.provider = restaurant.provider;
        self.state.restaurant_url = match restaurant.url {
            Some(u) => owned(u),
            None => String::new(),
        };
        self.clear_loaded();
    }

    /// Changes the selected restaurant by its menu order index; false when
    /// there is no restaurant at that position.
    pub fn set_restaurant_index(&mut self, index: usize) -> (r: bool)
        requires old(self).wf(),
        ensures
            final(self).wf(),
            r == (index < restaurant_count(old(self).state.settings.enable_antell_restaurants)),
            r ==> final(self).view() == with_state(old(self).view(), selected(old(self).view().state,
                restaurants(old(self).state.settings.enable_antell_restaurants)[index as int].code@,
                restaurant_lookup(restaurants(old(self).state.settings.enable_antell_restaurants)[index as int].code@, old(self).state.settings.enable_antell_restaurants))),
            !r ==> final(self).view() == old(self).view(),
    {
        let enable_antell = self.state.settings.enable_antell_restaurants;
        let restaurant = match restaurant_for_shortcut_index(index, enable_antell) {
            Some(r) => r,
            None => return false,
        };
        self.set_restaurant(restaurant.code);
        true
    }

    /// Changes the UI language; what was loaded for the old language is dropped.
    pub fn set_language(&mut self, language: &str)
        requires old(self).wf(),
        ensures
            final(self).wf(),
            final(self).view() == with_state(old(self).view(), cleared(AppStateV {
                settings: SettingsV { language: language@, ..old(self).view().state.settings },
                ..old(self).view().state
            })),
    {
        self.state.settings.language = owned(language);
        self.clear_loaded();
    }

    /// Marks whether the loaded payload is from another day than `today`.
    pub fn update_stale_date(&mut self, today: &str)
        requires old(self).wf(),
        ensures
            final(self).wf(),
            final(self).view() == with_state(old(self).view(), AppStateV {
                stale_date: stale_for(old(self).state.payload_date@, today@),
                ..old(self).view().state
            }),
    {
        let pd = str_chars(self.state.payload_date.as_str());
        self.state.stale_date = pd.len() > 0 && !str_eq(self.state.payload_date.as_str(), today);
    }

    /// Shows a fetch result (read from the cache or just fetched).
    pub fn apply_cached_result(&mut self, result: &FetchOutput, today: &str)
        requires old(self).wf(),
        ensures
            final(self).wf(),
            final(self).view() == with_state(old(self).view(), showing(old(self).view().state, result.deep_view(), today@)),
    {
        self.state.raw_payload = result.raw_json.clone();
        self.state.restaurant_name = result.restaurant_name.clone();
        self.state.restaurant_url = result.restaurant_url.clone();
        self.state.today_menu = clone_menu_option(&result.today_menu);
        self.state.provider = result.provider;
        self.state.payload_date = result.payload_date.clone();
        self.update_stale_date(today);
        self.state.loading_started_epoch_ms = 0;
        self.state.stale_network_error = false;
        if result.ok {
            self.state.status = FetchStatus::Loaded;
            self.state.error_message = String::new();
        } else {
            self.state.status = FetchStatus::Error;
            self.state.error_message = result.error_message.clone();
        }
    }

    /// Keeps a fetch result in memory for a restaurant and UI language.
    pub fn store_memory_from_fetch_output(&mut self, code: &str, language: &str, result: &FetchOutput)
        requires old(self).wf(),
        ensures
            final(self).wf(),
            final(self).view() == (AppCoreV {
                memory: old(self).view().memory.insert(menu_key(code@, language@), entry_of(result.deep_view())),
                ..old(self).view()
            }),
    {
        let key = menu_cache_key(code, language);
        let entry = MemoryMenuEntry {
            ok: result.ok,
            error_message: result.error_message.clone(),
            today_menu: clone_menu_option(&result.today_menu),
            restaurant_name: result.restaurant_name.clone(),
            restaurant_url: result.restaurant_url.clone(),
            provider: result.provider,
            raw_payload: result.raw_json.clone(),
            payload_date: result.payload_date.clone(),
        };
        let ghost ev = entry.deep_view();
        let ghost k = key@;
        let ghost before = self.memory_menu_cache@;
        self.memory_menu_cache.insert(key, entry);
        assert(self.memory_menu_cache@.map_values(|e: MemoryMenuEntry| e.deep_view()) =~=
            before.map_values(|e: MemoryMenuEntry| e.deep_view()).insert(k, ev));
    }

    /// Shows the in-memory menu of a restaurant and UI language, if there is one.
    pub fn load_memory_for(&mut self, code: &str, language: &str, today: &str) -> (r: bool)
        requires old(self).wf(),
        ensures
            final(self).wf(),
            r == old(self).view().memory.contains_key(menu_key(code@, language@)),
            r ==> final(self).view() == with_state(old(self).view(),
                showing(old(self).view().state, output_of(old(self).view().memory[menu_key(code@, language@)]), today@)),
            !r ==> final(self).view() == old(self).view(),
    {
        let key = menu_cache_key(code, language);
        let result = match self.memory_menu_cache.get(key.as_str()) {
            None => return false,
            Some(entry) => FetchOutput {
                ok: entry.ok,
                is_stale: false,
                error_message: entry.error_message.clone(),
                today_menu: clone_menu_option(&entry.today_menu),
                restaurant_name: entry.restaurant_name.clone(),
                restaurant_url: entry.restaurant_url.clone(),
                provider: entry.provider,
                raw_json: entry.raw_payload.clone(),
                payload_date: entry.payload_date.clone(),
            },
        };
        self.apply_cached_result(&result, today);
        true
    }

    /// Shows the in-memory menu of the selected restaurant (under its
    /// current code) and UI language, if there is one.
    pub fn load_memory_for_current(&mut self, today: &str) -> (r: bool)
        requires old(self).wf(),
        ensures
            final(self).wf(),
            r == old(self).view().memory.contains_key(current_menu_key(old(self).view().state)),
            r ==> final(self).view() == with_state(old(self).view(),
                showing(old(self).view().state, output_of(old(self).view().memory[current_menu_key(old(self).view().state)]), today@)),
            !r ==> final(self).view() == old(self).view(),
    {
        let restaurant = restaurant_for_code(self.state.settings.restaurant_code.as_str(), self.state.settings.enable_antell_restaurants);
        let language = self.state.settings.language.clone();
        self.load_memory_for(restaurant.code, language.as_str(), today)
    }

    /// Applies what reading the selected restaurant's cache file produced:
    /// the parsed payload is shown and kept in memory; a parse error is shown.
    pub fn apply_loaded_cache(&mut self, parsed: Result<FetchOutput, String>, today: &str) -> (r: bool)
        requires old(self).wf(),
        ensures
            final(self).wf(),
            r == parsed is Ok,
            match parsed {
                Ok(result) => final(self).view() == (AppCoreV {
                    state: showing(old(self).view().state, result.deep_view(), today@),
                    memory: old(self).view().memory.insert(
                        current_menu_key(old(self).view().state),
                        entry_of(result.deep_view())),
                    ..old(self).view()
                }),
                Err(message) => final(self).view() == with_state(old(self).view(), AppStateV {
                    status: FetchStatus::Error,
                    loading_started_epoch_ms: 0,
                    error_message: message@,
                    stale_network_error: false,
                    ..old(self).view().state
                }),
            },
    {
        match parsed {
            Ok(result) => {
                let restaurant = restaurant_for_code(self.state.settings.restaurant_code.as_str(), self.state.settings.enable_antell_restaurants);
                let language = self.state.settings.language.clone();
                self.apply_cached_result(&result, today);
                self.store_memory_from_fetch_output(restaurant.code, language.as_str(), &result);
                true
            },
            Err(message) => {
                self.state.status = FetchStatus::Error;
                self.state.loading_started_epoch_ms = 0;
                self.state.error_message = message;
                self.state.stale_network_error = false;
                false
            },
        }
    }
}

}
