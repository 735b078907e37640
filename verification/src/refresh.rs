//! When menus are fetched: starting a fetch for a restaurant (with its
//! in-flight and cooldown gates), recording how it finished, and applying
//! the result to the application state.
//!
//! The methods return the fetches to run as `FetchRequest`s; the caller
//! runs them and hands each result back through `apply_fetch_message`.

use vstd::prelude::*;
use crate::app_state::{
    applied_state, current_effective_language, fetch_target_for_code, fetch_target_for_values,
    finished, is_probable_network_error, new_request_state, persist_languages, probable_network_error,
    request_key, request_or_fresh, retry_delay_ms_for_failures, sat_add, saturating_add_i64,
    showing, stale_cooldown, trim_ws, AppCore, AppCoreV, AppStateV, FetchApplied,
    FetchApplyOutcome, FetchMessage, FetchRequest, FetchStatus, RequestState, StartOptions,
    STALE_NO_MENU_COOLDOWN_MS,
};
use crate::app_state::{need_reason, prefetch_need, prefetch_need_spec, refresh_need, refresh_need_for_target, sat_sub, saturating_sub_i64, selected, stale_for, with_state, RefreshNeedReasons};
use crate::fetch::{FetchContext, FetchMode, FetchOutput, FetchOutputV, FetchReason};
use crate::restaurant::{
    available_restaurants, fetch_language, position_in, position_of, restaurant_count, restaurant_lookup,
    restaurants, str_eq, Restaurant,
};
use crate::settings::SettingsV;
use crate::text::{chars_eq, owned, str_chars};

verus! {

/// The request key of a restaurant code under the given settings.
pub open spec fn key_for(s: SettingsV, code: Seq<char>) -> Seq<char> {
    request_key(code, fetch_language(restaurant_lookup(code, s.enable_antell_restaurants).finnish_only, s.language))
}

/// Whether a fetch may start for a key in this request state: none is in
/// flight, and its cooldown is over (or bypassed).
pub open spec fn may_start(e: RequestState, options: StartOptions, now: i64) -> bool {
    !e.in_flight && (options.bypass_cooldown || now >= e.cooldown_until_epoch_ms)
}

/// The request bookkeeping after asking to start a fetch for `key`: the
/// key is recorded either way, and marked in flight when the fetch starts.
pub open spec fn begun(m: Map<Seq<char>, RequestState>, key: Seq<char>, reason: FetchReason, options: StartOptions, now: i64) -> Map<Seq<char>, RequestState> {
    let e = request_or_fresh(m, key);
    if may_start(e, options, now) {
        m.insert(key, RequestState { in_flight: true, last_attempt_epoch_ms: now, last_reason: Some(reason), ..e })
    } else {
        m.insert(key, e)
    }
}

/// The state when a fetch for `code` is requested: for the selected
/// restaurant the error is cleared, and an empty view shows loading.
pub open spec fn marked(st: AppStateV, code: Seq<char>, options: StartOptions, now: i64) -> AppStateV {
    if st.settings.restaurant_code != code {
        st
    } else if options.mark_loading_when_empty && st.raw_payload.len() == 0 {
        AppStateV { status: FetchStatus::Loading, loading_started_epoch_ms: now, error_message: Seq::empty(), ..st }
    } else {
        AppStateV { error_message: Seq::empty(), ..st }
    }
}

/// The whole core after asking to start a fetch for `code`.
pub open spec fn after_begin(v: AppCoreV, code: Seq<char>, reason: FetchReason, options: StartOptions, now: i64) -> AppCoreV {
    AppCoreV {
        state: marked(v.state, code, options, now),
        requests: begun(v.requests, key_for(v.state.settings, code), reason, options, now),
        ..v
    }
}

/// Whether asking to start a fetch for `code` starts one.
pub open spec fn begin_allowed(v: AppCoreV, code: Seq<char>, options: StartOptions, now: i64) -> bool {
    may_start(request_or_fresh(v.requests, key_for(v.state.settings, code)), options, now)
}

/// A fetch request for `code` made under the settings `s`.
pub open spec fn request_for(q: FetchRequest, s: SettingsV, code: Seq<char>) -> bool {
    &&& q.settings.deep_view() == SettingsV { restaurant_code: code, ..s }
    &&& q.requested_code@ == code
    &&& q.requested_language@ == s.language
    &&& q.requested_effective_language@ == fetch_language(restaurant_lookup(code, s.enable_antell_restaurants).finnish_only, s.language)
    &&& q.request_key@ == key_for(s, code)
}

/// Whether a finished fetch is for what the selected restaurant shows now.
pub open spec fn is_current_request(st: AppStateV, code: Seq<char>, effective_language: Seq<char>) -> bool {
    code == st.settings.restaurant_code && effective_language == current_effective_language(st)
}

/// The outcome reported for a finished fetch.
pub open spec fn apply_outcome(is_current: bool, ok: bool) -> FetchApplyOutcome {
    if is_current {
        if ok { FetchApplyOutcome::CurrentSuccess } else { FetchApplyOutcome::CurrentFailure }
    } else {
        if ok { FetchApplyOutcome::BackgroundSuccess } else { FetchApplyOutcome::BackgroundFailure }
    }
}

impl AppCore {
    /// Asks to start a fetch for `code`. For the selected restaurant the
    /// error is cleared first (and an empty view shows loading when asked).
    /// No fetch starts while one for the same request key is in flight, or
    /// during the key's cooldown unless `options.bypass_cooldown`; otherwise
    /// the key is marked in flight and the fetch to run is returned.
    pub fn begin_refresh(&mut self, code: &str, context: FetchContext, options: StartOptions, now: i64) -> (r: Option<FetchRequest>)
        requires
            old(self).wf(),
        ensures
            final(self).wf(),
            final(self).view() == after_begin(old(self).view(), code@, context.reason, options, now),
            r is Some <==> begin_allowed(old(self).view(), code@, options, now),
            r matches Some(q) ==> request_for(q, old(self).view().state.settings, code@)
                && q.context.mode == context.mode && q.context.reason == context.reason
                && q.context.detail@ == context.detail@,
    {
        let target = fetch_target_for_code(&self.state.settings, code, self.state.settings.enable_antell_restaurants);
        let mut settings = self.state.settings.clone();
        settings.restaurant_code = owned(code);
        let requested_language = self.state.settings.language.clone();
        let ghost v0 = self.view();
        assert(target.key@ == key_for(v0.state.settings, code@));
        self.mark_for_request(code, options, now);
        let ghost v1 = self.view();
        let started = self.record_begin(target.key.as_str(), context.reason, options, now);
        assert(v1.requests == v0.requests);
        if !started {
            return None;
        }
        Some(FetchRequest {
            settings,
            context,
            requested_code: owned(code),
            requested_language,
            requested_effective_language: target.effective_language,
            request_key: target.key,
        })
    }

    fn mark_for_request(&mut self, code: &str, options: StartOptions, now: i64)
        requires
            old(self).wf(),
        ensures
            final(self).wf(),
            final(self).view() == (AppCoreV { state: marked(old(self).view().state, code@, options, now), ..old(self).view() }),
    {
        if str_eq(self.state.settings.restaurant_code.as_str(), code) {
            if options.mark_loading_when_empty && str_chars(self.state.raw_payload.as_str()).len() == 0 {
                self.state.status = FetchStatus::Loading;
                self.state.loading_started_epoch_ms = now;
            }
            self.state.error_message = String::new();
        }
    }

    fn record_begin(&mut self, key: &str, reason: FetchReason, options: StartOptions, now: i64) -> (r: bool)
        requires
            old(self).wf(),
        ensures
            final(self).wf(),
            r == may_start(request_or_fresh(old(self).view().requests, key@), options, now),
            final(self).view() == (AppCoreV { requests: begun(old(self).view().requests, key@, reason, options, now), ..old(self).view() }),
    {
        let entry: RequestState = match self.request_states.get(key) {
            Some(e) => *e,
            None => new_request_state(),
        };
        if entry.in_flight || (!options.bypass_cooldown && now < entry.cooldown_until_epoch_ms) {
            self.request_states.insert(owned(key), entry);
            return false;
        }
        let started = RequestState { in_flight: true, last_attempt_epoch_ms: now, last_reason: Some(reason), ..entry };
        self.request_states.insert(owned(key), started);
        true
    }

    /// Records that the fetch for `request_key` finished. A success resets
    /// the failure count and cooldown; a failure counts one more and sets a
    /// cooldown of the retry delay, which is returned (zero on success).
    pub fn finish_request_state(&mut self, request_key: &str, context: &FetchContext, ok: bool, now: i64) -> (r: u32)
        requires
            old(self).wf(),
        ensures
            final(self).wf(),
            (final(self).view().requests, r) == finished(old(self).view().requests, request_key@, context.reason, ok, now),
            final(self).view() == (AppCoreV { requests: final(self).view().requests, ..old(self).view() }),
    {
        let entry: RequestState = match self.request_states.get(request_key) {
            Some(e) => *e,
            None => new_request_state(),
        };
        if ok {
            let next = RequestState {
                in_flight: false,
                last_reason: Some(context.reason),
                last_success_epoch_ms: now,
                consecutive_failures: 0,
                cooldown_until_epoch_ms: 0,
                ..entry
            };
            self.request_states.insert(owned(request_key), next);
            0
        } else {
            let failures: usize = if entry.consecutive_failures == usize::MAX {
                usize::MAX
            } else {
                entry.consecutive_failures + 1
            };
            let delay_ms = retry_delay_ms_for_failures(failures);
            let next = RequestState {
                in_flight: false,
                last_reason: Some(context.reason),
                last_failure_epoch_ms: now,
                consecutive_failures: failures,
                cooldown_until_epoch_ms: saturating_add_i64(now, delay_ms as i64),
                ..entry
            };
            self.request_states.insert(owned(request_key), next);
            delay_ms
        }
    }

    /// A successful fetch without a menu for today, dated another day than
    /// `today`, puts its (recorded) request key on a fixed cooldown, which is
    /// returned; otherwise nothing changes and zero is returned.
    pub fn apply_stale_no_menu_cooldown(&mut self, request_key: &str, result: &FetchOutput, now: i64, today: &str) -> (r: u32)
        requires
            old(self).wf(),
        ensures
            final(self).wf(),
            (final(self).view().requests, r) == stale_cooldown(old(self).view().requests, request_key@, result.deep_view(), now, today@),
            final(self).view() == (AppCoreV { requests: final(self).view().requests, ..old(self).view() }),
    {
        if !result.ok || result.today_menu.is_some() {
            return 0;
        }
        let pd = crate::app_state::trim_ws_chars(&str_chars(result.payload_date.as_str()));
        if pd.len() == 0 || chars_eq(&pd, &str_chars(today)) {
            return 0;
        }
        let entry: RequestState = match self.request_states.get(request_key) {
            Some(e) => *e,
            None => return 0,
        };
        let next = RequestState {
            cooldown_until_epoch_ms: saturating_add_i64(now, STALE_NO_MENU_COOLDOWN_MS as i64),
            ..entry
        };
        self.request_states.insert(owned(request_key), next);
        STALE_NO_MENU_COOLDOWN_MS
    }

    /// Applies a finished fetch. Its request bookkeeping is updated first
    /// (`finish_request_state`, then `apply_stale_no_menu_cooldown`). A fetch
    /// for what the selected restaurant shows now (same code and fetch
    /// language) changes the state: a success shows the result and stamps
    /// the settings' last update; a failure marks a shown menu stale (noting
    /// whether the error looks like a network problem) or shows the error.
    /// The returned `FetchApplied` names the outcome and the UI languages
    /// whose cache should receive the result.
    pub fn apply_fetch_message(&mut self, message: FetchMessage, now: i64, today: &str) -> (r: FetchApplied)
        requires
            old(self).wf(),
        ensures
            final(self).wf(),
            ({
                let v = old(self).view();
                let is_current = is_current_request(v.state, message.requested_code@, message.requested_effective_language@);
                let fin = finished(v.requests, message.request_key@, message.context.reason, message.result.ok, now);
                let cd = stale_cooldown(fin.0, message.request_key@, message.result.deep_view(), now, today@);
                &&& final(self).view() == (AppCoreV {
                        state: applied_state(v.state, message.result.deep_view(), is_current, now, today@),
                        requests: cd.0,
                        ..v
                    })
                &&& r.outcome == apply_outcome(is_current, message.result.ok)
                &&& r.persist_languages@.map_values(|s: String| s@)
                        == persist_languages(v.state, message.result.deep_view(), is_current, message.requested_language@)
            }),
            r.result.deep_view() == message.result.deep_view(),
            r.requested_code@ == message.requested_code@,
    {
        let FetchMessage {
            requested_code,
            requested_language,
            requested_effective_language,
            request_key,
            context,
            result,
        } = message;
        let current = fetch_target_for_values(
            self.state.settings.restaurant_code.as_str(),
            self.state.settings.language.as_str(),
            self.state.settings.enable_antell_restaurants,
        );
        let is_current = str_eq(requested_code.as_str(), self.state.settings.restaurant_code.as_str())
            && str_eq(requested_effective_language.as_str(), current.effective_language.as_str());
        let languages = languages_to_persist(&self.state.settings.language, &result, is_current, requested_language);
        let _cooldown_ms = self.finish_request_state(request_key.as_str(), &context, result.ok, now);
        let _stale_ms = self.apply_stale_no_menu_cooldown(request_key.as_str(), &result, now, today);
        self.apply_result_to_state(&result, is_current, now, today);
        let outcome = if !is_current {
            if result.ok { FetchApplyOutcome::BackgroundSuccess } else { FetchApplyOutcome::BackgroundFailure }
        } else if result.ok {
            FetchApplyOutcome::CurrentSuccess
        } else {
            FetchApplyOutcome::CurrentFailure
        };
        FetchApplied { outcome, result, requested_code, persist_languages: languages }
    }

    fn apply_result_to_state(&mut self, result: &FetchOutput, is_current: bool, now: i64, today: &str)
        requires
            old(self).wf(),
        ensures
            final(self).wf(),
            final(self).view() == (AppCoreV {
                state: applied_state(old(self).view().state, result.deep_view(), is_current, now, today@),
                ..old(self).view()
            }),
    {
        if !is_current {
            return;
        }
        if result.ok {
            self.apply_cached_result(result, today);
            self.state.settings.last_updated_epoch_ms = now;
        } else {
            if str_chars(self.state.raw_payload.as_str()).len() > 0 {
                self.state.status = FetchStatus::Stale;
                self.state.loading_started_epoch_ms = 0;
                self.state.stale_network_error = is_probable_network_error(result.error_message.as_str());
            } else {
                self.state.status = FetchStatus::Error;
                self.state.loading_started_epoch_ms = 0;
                self.state.stale_network_error = false;
            }
            self.state.error_message = result.error_message.clone();
        }
    }
}

fn quiet() -> (o: StartOptions)
    ensures
        o == quiet_options(),
{
    StartOptions { mark_loading_when_empty: false, bypass_cooldown: false }
}

fn cycle_index(p: usize, direction: i32, len: usize) -> (r: usize)
    requires
        0 < len <= 100,
        p < len,
        i32::MIN <= p + direction <= i32::MAX,
    ensures
        r == cycled(p as int, direction as int, len as int),
        r < len,
{
    let n: i32 = len as i32;
    let idx: i32 = p as i32 + direction;
    if idx < 0 {
        (n - 1) as usize
    } else if idx >= n {
        0
    } else {
        idx as usize
    }
}

impl AppCore {
    /// Asks to fetch the selected restaurant's menu, for a reason and with
    /// options that do not depend on what is shown.
    fn begin_current(&mut self, reason: FetchReason, options: StartOptions, now: i64) -> (r: Option<FetchRequest>)
        requires
            old(self).wf(),
        ensures
            final(self).wf(),
            began(old(self).view(), final(self).view(), r, old(self).view().state.settings.restaurant_code,
                FetchMode::Current, reason, options, now),
    {
        let code = self.state.settings.restaurant_code.clone();
        self.begin_refresh(code.as_str(), FetchContext::new(FetchMode::Current, reason), options, now)
    }

    /// Fetches the selected restaurant when it needs it, reporting the need
    /// with `reasons`. `today` is the local date key; `cache_mtime_ms` the
    /// modification time of the selected restaurant's cache file.
    pub fn maybe_refresh_current_with_reasons(
        &mut self,
        reasons: RefreshNeedReasons,
        options: StartOptions,
        now: i64,
        today: &str,
        cache_mtime_ms: Option<i64>,
    ) -> (r: Option<FetchRequest>)
        requires
            old(self).wf(),
        ensures
            final(self).wf(),
            checked_refresh(old(self).view(), final(self).view(), r,
                refresh_reason(old(self).view(), reasons, now, today@, cache_mtime_ms), options, now),
    {
        let target = fetch_target_for_code(&self.state.settings, self.state.settings.restaurant_code.as_str(), self.state.settings.enable_antell_restaurants);
        let refresh_minutes = self.state.settings.refresh_minutes;
        let has_payload = str_chars(self.state.raw_payload.as_str()).len() > 0;
        let need = refresh_need_for_target(&target, refresh_minutes, self.state.payload_date.as_str(), has_payload, now, today, cache_mtime_ms);
        let reason = match need {
            None => return None,
            Some(crate::app_state::RefreshNeed::MissingCache) => reasons.missing,
            Some(crate::app_state::RefreshNeed::StaleDate) => reasons.stale,
            Some(crate::app_state::RefreshNeed::RefreshIntervalElapsed) => {
                if refresh_minutes == 0 {
                    return None;
                }
                reasons.interval
            },
        };
        self.begin_current(reason, options, now)
    }

    /// The startup refresh check, after the cached state was restored.
    pub fn maybe_refresh_on_startup(&mut self, now: i64, today: &str, cache_mtime_ms: Option<i64>) -> (r: Option<FetchRequest>)
        requires
            old(self).wf(),
        ensures
            final(self).wf(),
            checked_refresh(old(self).view(), final(self).view(), r,
                refresh_reason(old(self).view(), RefreshNeedReasons {
                    missing: FetchReason::StartupMissingCache,
                    stale: FetchReason::StartupStaleDate,
                    interval: FetchReason::StartupRefreshInterval,
                }, now, today@, cache_mtime_ms),
                StartOptions { mark_loading_when_empty: true, bypass_cooldown: false }, now),
    {
        self.maybe_refresh_current_with_reasons(
            RefreshNeedReasons {
                missing: FetchReason::StartupMissingCache,
                stale: FetchReason::StartupStaleDate,
                interval: FetchReason::StartupRefreshInterval,
            },
            StartOptions { mark_loading_when_empty: true, bypass_cooldown: false },
            now,
            today,
            cache_mtime_ms,
        )
    }

    /// The refresh check after the selected restaurant changed.
    pub fn maybe_refresh_on_selection(&mut self, now: i64, today: &str, cache_mtime_ms: Option<i64>) -> (r: Option<FetchRequest>)
        requires
            old(self).wf(),
        ensures
            final(self).wf(),
            checked_refresh(old(self).view(), final(self).view(), r,
                refresh_reason(old(self).view(), RefreshNeedReasons {
                    missing: FetchReason::SelectionMissingCache,
                    stale: FetchReason::SelectionStaleDate,
                    interval: FetchReason::SelectionRefreshInterval,
                }, now, today@, cache_mtime_ms),
                quiet_options(), now),
    {
        self.maybe_refresh_current_with_reasons(
            RefreshNeedReasons {
                missing: FetchReason::SelectionMissingCache,
                stale: FetchReason::SelectionStaleDate,
                interval: FetchReason::SelectionRefreshInterval,
            },
            quiet(),
            now,
            today,
            cache_mtime_ms,
        )
    }

    /// The refresh check after the UI language changed.
    pub fn maybe_refresh_on_language_switch(&mut self, now: i64, today: &str, cache_mtime_ms: Option<i64>) -> (r: Option<FetchRequest>)
        requires
            old(self).wf(),
        ensures
            final(self).wf(),
            checked_refresh(old(self).view(), final(self).view(), r,
                refresh_reason(old(self).view(), RefreshNeedReasons {
                    missing: FetchReason::LanguageSwitchMissingCache,
                    stale: FetchReason::LanguageSwitchStaleDate,
                    interval: FetchReason::LanguageSwitchRefreshInterval,
                }, now, today@, cache_mtime_ms),
                quiet_options(), now),
    {
        self.maybe_refresh_current_with_reasons(
            RefreshNeedReasons {
                missing: FetchReason::LanguageSwitchMissingCache,
                stale: FetchReason::LanguageSwitchStaleDate,
                interval: FetchReason::LanguageSwitchRefreshInterval,
            },
            quiet(),
            now,
            today,
            cache_mtime_ms,
        )
    }

    /// A timer-driven fetch of the selected restaurant.
    pub fn refresh_current_from_timer(&mut self, now: i64) -> (r: Option<FetchRequest>)
        requires
            old(self).wf(),
        ensures
            final(self).wf(),
            began(old(self).view(), final(self).view(), r, old(self).view().state.settings.restaurant_code,
                FetchMode::Current, FetchReason::RefreshTimer,
                StartOptions { mark_loading_when_empty: true, bypass_cooldown: false }, now),
    {
        self.begin_current(FetchReason::RefreshTimer, StartOptions { mark_loading_when_empty: true, bypass_cooldown: false }, now)
    }

    /// The daily fetch at midnight.
    pub fn refresh_current_at_midnight(&mut self, now: i64) -> (r: Option<FetchRequest>)
        requires
            old(self).wf(),
        ensures
            final(self).wf(),
            began(old(self).view(), final(self).view(), r, old(self).view().state.settings.restaurant_code,
                FetchMode::Current, FetchReason::MidnightRollover,
                StartOptions { mark_loading_when_empty: true, bypass_cooldown: false }, now),
    {
        self.begin_current(FetchReason::MidnightRollover, StartOptions { mark_loading_when_empty: true, bypass_cooldown: false }, now)
    }

    /// A user-requested fetch of the selected restaurant; it ignores cooldowns.
    pub fn refresh_current_manually(&mut self, now: i64) -> (r: Option<FetchRequest>)
        requires
            old(self).wf(),
        ensures
            final(self).wf(),
            began(old(self).view(), final(self).view(), r, old(self).view().state.settings.restaurant_code,
                FetchMode::Current, FetchReason::ManualRefresh,
                StartOptions { mark_loading_when_empty: true, bypass_cooldown: true }, now),
    {
        self.begin_current(FetchReason::ManualRefresh, StartOptions { mark_loading_when_empty: true, bypass_cooldown: true }, now)
    }

    /// A retry after a failed fetch, made only while the selected
    /// restaurant still needs fetching.
    pub fn start_refresh_retry(&mut self, now: i64, today: &str, cache_mtime_ms: Option<i64>) -> (r: Option<FetchRequest>)
        requires
            old(self).wf(),
        ensures
            final(self).wf(),
            ({
                let v = old(self).view();
                let need = refresh_need(v.state.settings.refresh_minutes, v.state.payload_date, v.state.raw_payload.len() > 0, now, today@, cache_mtime_ms);
                checked_refresh(v, final(self).view(), r,
                    if need is Some { Some(FetchReason::RetryTimer) } else { None }, quiet_options(), now)
            }),
    {
        let target = fetch_target_for_code(&self.state.settings, self.state.settings.restaurant_code.as_str(), self.state.settings.enable_antell_restaurants);
        let has_payload = str_chars(self.state.raw_payload.as_str()).len() > 0;
        let need = refresh_need_for_target(&target, self.state.settings.refresh_minutes, self.state.payload_date.as_str(), has_payload, now, today, cache_mtime_ms);
        if need.is_none() {
            return None;
        }
        self.begin_current(FetchReason::RetryTimer, quiet(), now)
    }

    /// Marks whether the shown payload is from another day than `today`,
    /// and if so fetches the selected restaurant again.
    pub fn check_stale_date_and_refresh(&mut self, now: i64, today: &str) -> (r: Option<FetchRequest>)
        requires
            old(self).wf(),
        ensures
            final(self).wf(),
            ({
                let v = old(self).view();
                let stale = stale_for(v.state.payload_date, today@);
                let marked_stale = with_state(v, AppStateV { stale_date: stale, ..v.state });
                checked_refresh(marked_stale, final(self).view(), r,
                    if stale { Some(FetchReason::StaleDateCheck) } else { None }, quiet_options(), now)
            }),
    {
        self.update_stale_date(today);
        if !self.state.stale_date {
            return None;
        }
        self.begin_current(FetchReason::StaleDateCheck, quiet(), now)
    }

    /// How long to wait before retrying the selected restaurant: the rest
    /// of its cooldown, at least one second.
    pub fn current_retry_delay_ms(&self, now: i64) -> (r: u32)
        requires
            self.wf(),
        ensures
            r == retry_wait(self.view(), now),
    {
        let target = fetch_target_for_code(&self.state.settings, self.state.settings.restaurant_code.as_str(), self.state.settings.enable_antell_restaurants);
        let entry = match self.request_states.get(target.key.as_str()) {
            None => return 1_000,
            Some(e) => *e,
        };
        if entry.cooldown_until_epoch_ms <= now {
            1_000
        } else {
            let d = saturating_sub_i64(entry.cooldown_until_epoch_ms, now);
            let wait: i64 = if d < 1_000 { 1_000 } else { d };
            wait as u32
        }
    }

    /// Moves the selection `direction` steps through the offered
    /// restaurants, wrapping at either end (from the first one when the
    /// selected code is not offered); what was shown is dropped.
    pub fn cycle_restaurant(&mut self, direction: i32)
        requires
            old(self).wf(),
            ({
                let list = restaurants(old(self).state.settings.enable_antell_restaurants);
                let p = match position_of(list, old(self).state.settings.restaurant_code@) { Some(i) => i, None => 0 };
                i32::MIN <= p + direction <= i32::MAX
            }),
        ensures
            final(self).wf(),
            ({
                let list = restaurants(old(self).state.settings.enable_antell_restaurants);
                let p = match position_of(list, old(self).state.settings.restaurant_code@) { Some(i) => i, None => 0 };
                let r = list[cycled(p, direction as int, list.len() as int)];
                final(self).view() == with_state(old(self).view(), selected(old(self).view().state, r.code@, r))
            }),
    {
        let list = available_restaurants(self.state.settings.enable_antell_restaurants);
        proof {
            crate::restaurant::lemma_position_of(list@, self.state.settings.restaurant_code@);
        }
        let p: usize = match position_in(&list, self.state.settings.restaurant_code.as_str()) {
            Some(i) => i,
            None => 0,
        };
        let idx = cycle_index(p, direction, list.len());
        let r = list[idx];
        self.select_restaurant(r);
    }

    fn select_restaurant(&mut self, r: Restaurant)
        requires
            old(self).wf(),
        ensures
            final(self).wf(),
            final(self).view() == with_state(old(self).view(), selected(old(self).view().state, r.code@, r)),
    {
        self.state.settings.restaurant_code = owned(r.code);
        self.state.provider = r.provider;
        self.state.restaurant_url = match r.url {
            Some(u) => owned(u),
            None => String::new(),
        };
        self.state.raw_payload = String::new();
        self.state.today_menu = None;
        self.state.payload_date = String::new();
        self.state.stale_date = false;
        self.state.status = FetchStatus::Idle;
        self.state.loading_started_epoch_ms = 0;
        self.state.stale_network_error = false;
    }

    /// Whether a prefetch round may run now: the last one began at least
    /// `PREFETCH_INTERVAL_MS` ago. When it may, `now` is recorded as its start.
    pub fn prefetch_gate(&mut self, now: i64) -> (r: bool)
        requires
            old(self).wf(),
        ensures
            final(self).wf(),
            r == (sat_sub(now as int, old(self).last_prefetch_ms as int) >= PREFETCH_INTERVAL_MS),
            r ==> final(self).view() == (AppCoreV { last_prefetch_ms: now, ..old(self).view() }),
            !r ==> final(self).view() == old(self).view(),
    {
        if saturating_sub_i64(now, self.last_prefetch_ms) < PREFETCH_INTERVAL_MS {
            return false;
        }
        self.last_prefetch_ms = now;
        true
    }

    /// A prefetch round: unless one ran within `PREFETCH_INTERVAL_MS`, asks
    /// for a background fetch of each offered restaurant other than the
    /// selected one whose cache file is missing or not from `today`.
    /// `stamps` holds, for each offered restaurant in menu order, whether its
    /// cache file exists and the local date it was written (when known).
    /// Returns the fetches to run.
    pub fn prefetch_enabled_restaurants(&mut self, now: i64, today: &str, stamps: &Vec<Option<Option<String>>>) -> (r: Vec<FetchRequest>)
        requires
            old(self).wf(),
            stamps.len() == restaurant_count(old(self).state.settings.enable_antell_restaurants),
        ensures
            final(self).wf(),
            ({
                let v = old(self).view();
                let gate = sat_sub(now as int, v.last_prefetch_ms as int) >= PREFETCH_INTERVAL_MS;
                let round = prefetch_round(
                    AppCoreV { last_prefetch_ms: now, ..v },
                    restaurants(v.state.settings.enable_antell_restaurants),
                    stamps@.map_values(|s: Option<Option<String>>| stamp_view(s)),
                    today@,
                    now,
                );
                &&& !gate ==> final(self).view() == v && r.len() == 0
                &&& gate ==> final(self).view() == round.0 && r.len() == round.1.len()
                &&& gate ==> forall|j: int| 0 <= j < r.len() ==>
                        request_for(#[trigger] r@[j], v.state.settings, round.1[j].0)
                        && r@[j].context.mode == FetchMode::Background
                        && r@[j].context.reason == round.1[j].1
            }),
    {
        let mut out: Vec<FetchRequest> = Vec::new();
        if !self.prefetch_gate(now) {
            return out;
        }
        let list = available_restaurants(self.state.settings.enable_antell_restaurants);
        let ghost v1 = self.view();
        let ghost sv = stamps@.map_values(|s: Option<Option<String>>| stamp_view(s));
        let mut i: usize = 0;
        assert(list@.take(0) =~= Seq::<Restaurant>::empty());
        assert(sv.take(0) =~= Seq::<Option<Option<Seq<char>>>>::empty());
        while i < list.len()
            invariant
                self.wf(),
                i <= list.len(),
                list@ == restaurants(v1.state.settings.enable_antell_restaurants),
                stamps.len() == list.len(),
                sv == stamps@.map_values(|s: Option<Option<String>>| stamp_view(s)),
                self.view().state.settings == v1.state.settings,
                self.view() == prefetch_round(v1, list@.take(i as int), sv.take(i as int), today@, now).0,
                out.len() == prefetch_round(v1, list@.take(i as int), sv.take(i as int), today@, now).1.len(),
                forall|j: int| 0 <= j < out.len() ==>
                    request_for(#[trigger] out@[j], v1.state.settings, prefetch_round(v1, list@.take(i as int), sv.take(i as int), today@, now).1[j].0)
                    && out@[j].context.mode == FetchMode::Background
                    && out@[j].context.reason == prefetch_round(v1, list@.take(i as int), sv.take(i as int), today@, now).1[j].1,
            decreases list.len() - i,
        {
            let ghost before = prefetch_round(v1, list@.take(i as int), sv.take(i as int), today@, now);
            proof {
                assert(list@.take(i + 1).drop_last() =~= list@.take(i as int));
                assert(sv.take(i + 1).drop_last() =~= sv.take(i as int));
                assert(list@.take(i + 1).last() == list@[i as int]);
                assert(sv.take(i + 1).last() == sv[i as int]);
            }
            let r = list[i];
            if !str_eq(r.code, self.state.settings.restaurant_code.as_str()) {
                let stamp = &stamps[i];
                let cache_date: Option<&str> = match stamp {
                    Some(Some(d)) => Some(d.as_str()),
                    _ => None,
                };
                let need = prefetch_need(stamp.is_some(), cache_date, today);
                proof {
                    assert(sv[i as int] == stamp_view(stamps@[i as int]));
                }
                if let Some(reason) = need {
                    let started = self.begin_refresh(r.code, FetchContext::new(FetchMode::Background, reason), quiet(), now);
                    if let Some(q) = started {
                        let ghost prev = out@;
                        out.push(q);
                        proof {
                            let after = prefetch_round(v1, list@.take(i + 1), sv.take(i + 1), today@, now);
                            assert(after.1 == before.1.push((r.code@, reason)));
                            assert forall|j: int| 0 <= j < out.len() implies
                                request_for(#[trigger] out@[j], v1.state.settings, after.1[j].0)
                                && out@[j].context.mode == FetchMode::Background
                                && out@[j].context.reason == after.1[j].1 by {
                                if j < prev.len() {
                                    assert(out@[j] == prev[j]);
                                }
                            }
                        }
                    }
                }
            }
            i += 1;
        }
        assert(list@.take(list.len() as int) =~= list@);
        assert(sv.take(list.len() as int) =~= sv);
        out
    }

    /// Starts an update check unless one is in flight; true when started.
    pub fn begin_update_check(&mut self) -> (r: bool)
        requires
            old(self).wf(),
        ensures
            final(self).wf(),
            r == !old(self).update_check_in_flight,
            final(self).view() == (AppCoreV { update_check_in_flight: true, ..old(self).view() }),
    {
        if self.update_check_in_flight {
            return false;
        }
        self.update_check_in_flight = true;
        true
    }

    /// Marks the current update check as completed.
    pub fn finish_update_check(&mut self)
        requires
            old(self).wf(),
        ensures
            final(self).wf(),
            final(self).view() == (AppCoreV { update_check_in_flight: false, ..old(self).view() }),
    {
        self.update_check_in_flight = false;
    }
}

/// `new` and `r` are what asking to start a fetch for `code` (in the given
/// mode, for the given reason, with no detail) makes of the core `old`.
pub open spec fn began(old: AppCoreV, new: AppCoreV, r: Option<FetchRequest>, code: Seq<char>, mode: FetchMode, reason: FetchReason, options: StartOptions, now: i64) -> bool {
    &&& new == after_begin(old, code, reason, options, now)
    &&& (r is Some <==> begin_allowed(old, code, options, now))
    &&& (r matches Some(q) ==> request_for(q, old.state.settings, code)
            && q.context.mode == mode && q.context.reason == reason && q.context.detail@ == Seq::<char>::empty())
}

/// Why the selected restaurant's menu should be fetched, if at all: the
/// refresh need of what it shows, reported with the given reasons.
pub open spec fn refresh_reason(v: AppCoreV, reasons: RefreshNeedReasons, now: i64, today: Seq<char>, cache_mtime_ms: Option<i64>) -> Option<FetchReason> {
    need_reason(
        refresh_need(v.state.settings.refresh_minutes, v.state.payload_date, v.state.raw_payload.len() > 0, now, today, cache_mtime_ms),
        reasons,
        v.state.settings.refresh_minutes,
    )
}

/// `new` and `r` are what a refresh check of the selected restaurant makes
/// of `old`: nothing when no refresh is needed, else a current fetch.
pub open spec fn checked_refresh(old: AppCoreV, new: AppCoreV, r: Option<FetchRequest>, need: Option<FetchReason>, options: StartOptions, now: i64) -> bool {
    match need {
        None => new == old && r is None,
        Some(reason) => began(old, new, r, old.state.settings.restaurant_code, FetchMode::Current, reason, options, now),
    }
}

/// How long to wait before the next retry of the selected restaurant: the
/// rest of its cooldown, at least a second.
pub open spec fn retry_wait(v: AppCoreV, now: i64) -> u32 {
    let key = key_for(v.state.settings, v.state.settings.restaurant_code);
    if !v.requests.contains_key(key) || v.requests[key].cooldown_until_epoch_ms <= now {
        1_000
    } else {
        let d = sat_sub(v.requests[key].cooldown_until_epoch_ms as int, now as int);
        (if d < 1_000 { 1_000 } else { d as int }) as u32
    }
}

/// The position `direction` steps from `position` in a list of `len`
/// entries, wrapping to the other end when it leaves the list.
pub open spec fn cycled(position: int, direction: int, len: int) -> int {
    let idx = position + direction;
    if idx < 0 { len - 1 } else if idx >= len { 0 } else { idx }
}

/// What a cache file says for prefetching: absent (`None`), or present
/// with the local date it was written (`None` when unknown).
pub open spec fn stamp_view(s: Option<Option<String>>) -> Option<Option<Seq<char>>> {
    match s {
        None => None,
        Some(None) => Some(None),
        Some(Some(d)) => Some(Some(d@)),
    }
}

/// One restaurant's turn in a prefetch round: skipped when it is the
/// selected one or its cache is from today, else a background fetch is
/// asked for. Also says whether a fetch started.
pub open spec fn prefetch_step(v: AppCoreV, r: Restaurant, stamp: Option<Option<Seq<char>>>, today: Seq<char>, now: i64) -> (AppCoreV, bool) {
    if r.code@ == v.state.settings.restaurant_code {
        (v, false)
    } else {
        let cache_date = match stamp { Some(d) => d, None => None };
        match prefetch_need_spec(stamp is Some, cache_date, today) {
            None => (v, false),
            Some(reason) => (
                after_begin(v, r.code@, reason, quiet_options(), now),
                begin_allowed(v, r.code@, quiet_options(), now),
            ),
        }
    }
}

/// A prefetch round over `list` (with the cache stamps `stamps` in the same
/// order): the core afterwards, and the codes and reasons of the fetches
/// that started, in order.
pub open spec fn prefetch_round(v: AppCoreV, list: Seq<Restaurant>, stamps: Seq<Option<Option<Seq<char>>>>, today: Seq<char>, now: i64) -> (AppCoreV, Seq<(Seq<char>, FetchReason)>)
    decreases list.len(),
{
    if list.len() == 0 || stamps.len() == 0 {
        (v, Seq::empty())
    } else {
        let (w, started) = prefetch_round(v, list.drop_last(), stamps.drop_last(), today, now);
        let (x, ok) = prefetch_step(w, list.last(), stamps.last(), today, now);
        let cache_date = match stamps.last() { Some(d) => d, None => None };
        if ok {
            (x, started.push((list.last().code@, prefetch_need_spec(stamps.last() is Some, cache_date, today).unwrap())))
        } else {
            (x, started)
        }
    }
}

/// How prefetches, retries and selection-driven fetches start: never
/// marking the view loading, never bypassing a cooldown.
pub open spec fn quiet_options() -> StartOptions {
    StartOptions { mark_loading_when_empty: false, bypass_cooldown: false }
}

/// How long prefetch rounds are apart at least.
pub const PREFETCH_INTERVAL_MS: i64 = 300_000;

/// The UI languages whose cache receives a result: none for a failure or
/// an empty payload; the requested one, and the UI language shown now when
/// it differs and the result is for the selected restaurant.
fn languages_to_persist(shown_language: &String, result: &FetchOutput, is_current: bool, requested_language: String) -> (r: Vec<String>)
    ensures
        forall|st: AppStateV| st.settings.language == shown_language@ ==>
            r@.map_values(|s: String| s@) == #[trigger] persist_languages(st, result.deep_view(), is_current, requested_language@),
{
    let mut languages: Vec<String> = Vec::new();
    if result.ok && str_chars(result.raw_json.as_str()).len() > 0 {
        let aliased = is_current && !str_eq(shown_language.as_str(), requested_language.as_str());
        languages.push(requested_language);
        if aliased {
            languages.push(shown_language.clone());
        }
    }
    assert forall|st: AppStateV| st.settings.language == shown_language@ implies
        languages@.map_values(|s: String| s@) == #[trigger] persist_languages(st, result.deep_view(), is_current, requested_language@) by {
        assert(languages@.map_values(|s: String| s@) =~= persist_languages(st, result.deep_view(), is_current, requested_language@));
    }
    languages
}

} // verus!
