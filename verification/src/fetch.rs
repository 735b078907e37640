//! Fetch requests and results: why a fetch ran and what it produced.

use vstd::prelude::*;
use crate::model::TodayMenu;
use crate::restaurant::Provider;

verus! {

/// High-level fetch mode used for logging and fetch policy decisions.
#[derive(Clone, Copy, Debug, PartialEq, Eq, Structural)]
pub enum FetchMode {
    Current,
    Background,
    Direct,
}

impl FetchMode {
    pub open spec fn name(self) -> Seq<char> {
        match self {
            FetchMode::Current => "current"@,
            FetchMode::Background => "background"@,
            FetchMode::Direct => "direct"@,
        }
    }

    /// The mode's name in logs.
    pub fn as_str(self) -> (r: &'static str)
        ensures
            r@ == self.name(),
    {
        match self {
            FetchMode::Current => "current",
            FetchMode::Background => "background",
            FetchMode::Direct => "direct",
        }
    }
}

/// Reason a fetch was requested.
#[derive(Clone, Copy, Debug, PartialEq, Eq, Structural)]
pub enum FetchReason {
    StartupMissingCache,
    StartupStaleDate,
    StartupRefreshInterval,
    ManualRefresh,
    RefreshTimer,
    MidnightRollover,
    StaleDateCheck,
    RetryTimer,
    SelectionMissingCache,
    SelectionStaleDate,
    SelectionRefreshInterval,
    LanguageSwitchMissingCache,
    LanguageSwitchStaleDate,
    LanguageSwitchRefreshInterval,
    PrefetchMissingCache,
    PrefetchStaleDate,
    PrintTodayCli,
}

impl FetchReason {
    pub open spec fn name(self) -> Seq<char> {
        match self {
            FetchReason::StartupMissingCache => "startup_missing_cache"@,
            FetchReason::StartupStaleDate => "startup_stale_date"@,
            FetchReason::StartupRefreshInterval => "startup_refresh_interval"@,
            FetchReason::ManualRefresh => "manual_refresh"@,
            FetchReason::RefreshTimer => "refresh_timer"@,
            FetchReason::MidnightRollover => "midnight_rollover"@,
            FetchReason::StaleDateCheck => "stale_date_check"@,
            FetchReason::RetryTimer => "retry_timer"@,
            FetchReason::SelectionMissingCache => "selection_missing_cache"@,
            FetchReason::SelectionStaleDate => "selection_stale_date"@,
            FetchReason::SelectionRefreshInterval => "selection_refresh_interval"@,
            FetchReason::LanguageSwitchMissingCache => "language_switch_missing_cache"@,
            FetchReason::LanguageSwitchStaleDate => "language_switch_stale_date"@,
            FetchReason::LanguageSwitchRefreshInterval => "language_switch_refresh_interval"@,
            FetchReason::PrefetchMissingCache => "prefetch_missing_cache"@,
            FetchReason::PrefetchStaleDate => "prefetch_stale_date"@,
            FetchReason::PrintTodayCli => "print_today_cli"@,
        }
    }

    /// The reason's name in logs.
    pub fn as_str(self) -> (r: &'static str)
        ensures
            r@ == self.name(),
    {
        match self {
            FetchReason::StartupMissingCache => "startup_missing_cache",
            FetchReason::StartupStaleDate => "startup_stale_date",
            FetchReason::StartupRefreshInterval => "startup_refresh_interval",
            FetchReason::ManualRefresh => "manual_refresh",
            FetchReason::RefreshTimer => "refresh_timer",
            FetchReason::MidnightRollover => "midnight_rollover",
            FetchReason::StaleDateCheck => "stale_date_check",
            FetchReason::RetryTimer => "retry_timer",
            FetchReason::SelectionMissingCache => "selection_missing_cache",
            FetchReason::SelectionStaleDate => "selection_stale_date",
            FetchReason::SelectionRefreshInterval => "selection_refresh_interval",
            FetchReason::LanguageSwitchMissingCache => "language_switch_missing_cache",
            FetchReason::LanguageSwitchStaleDate => "language_switch_stale_date",
            FetchReason::LanguageSwitchRefreshInterval => "language_switch_refresh_interval",
            FetchReason::PrefetchMissingCache => "prefetch_missing_cache",
            FetchReason::PrefetchStaleDate => "prefetch_stale_date",
            FetchReason::PrintTodayCli => "print_today_cli",
        }
    }
}

/// A non-empty run of lowercase ASCII letters and underscores, with no
/// underscore at either end and no two in a row.
pub open spec fn is_snake_case(s: Seq<char>) -> bool {
    s.len() > 0 && s[0] != '_' && s.last() != '_' && snake_from(s, 0)
}

/// From position `i` on, every character is a lowercase ASCII letter or an
/// underscore, and no two underscores stand together.
pub open spec fn snake_from(s: Seq<char>, i: int) -> bool
    decreases s.len() - i,
{
    if i < 0 || i >= s.len() {
        true
    } else {
        let c = s[i];
        &&& ('a' <= c && c <= 'z') || c == '_'
        &&& !(c == '_' && i + 1 < s.len() && s[i + 1] == '_')
        &&& snake_from(s, i + 1)
    }
}

impl FetchReason {
    /// The length and first letter of each reason's name, which together
    /// tell the reasons apart.
    pub open spec fn name_key(self) -> (int, char) {
        match self {
            FetchReason::StartupMissingCache => (21, 's'),
            FetchReason::StartupStaleDate => (18, 's'),
            FetchReason::StartupRefreshInterval => (24, 's'),
            FetchReason::ManualRefresh => (14, 'm'),
            FetchReason::RefreshTimer => (13, 'r'),
            FetchReason::MidnightRollover => (17, 'm'),
            FetchReason::StaleDateCheck => (16, 's'),
            FetchReason::RetryTimer => (11, 'r'),
            FetchReason::SelectionMissingCache => (23, 's'),
            FetchReason::SelectionStaleDate => (20, 's'),
            FetchReason::SelectionRefreshInterval => (26, 's'),
            FetchReason::LanguageSwitchMissingCache => (29, 'l'),
            FetchReason::LanguageSwitchStaleDate => (26, 'l'),
            FetchReason::LanguageSwitchRefreshInterval => (32, 'l'),
            FetchReason::PrefetchMissingCache => (22, 'p'),
            FetchReason::PrefetchStaleDate => (19, 'p'),
            FetchReason::PrintTodayCli => (15, 'p'),
        }
    }

    /// Each reason's name is in snake case and has the length and first
    /// letter `name_key` gives.
    pub proof fn lemma_name_shape(self)
        ensures
            is_snake_case(self.name()),
            (self.name().len() as int, self.name()[0]) == self.name_key(),
    {
        match self {
        FetchReason::StartupMissingCache => {
            reveal_strlit("startup_missing_cache");
            assert("startup_missing_cache"@ =~= seq!['s', 't', 'a', 'r', 't', 'u', 'p', '_', 'm', 'i', 's', 's', 'i', 'n', 'g', '_', 'c', 'a', 'c', 'h', 'e']);
            reveal_with_fuel(snake_from, 40);
            assert(is_snake_case(seq!['s', 't', 'a', 'r', 't', 'u', 'p', '_', 'm', 'i', 's', 's', 'i', 'n', 'g', '_', 'c', 'a', 'c', 'h', 'e']));
        },
        FetchReason::StartupStaleDate => {
            reveal_strlit("startup_stale_date");
            assert("startup_stale_date"@ =~= seq!['s', 't', 'a', 'r', 't', 'u', 'p', '_', 's', 't', 'a', 'l', 'e', '_', 'd', 'a', 't', 'e']);
            reveal_with_fuel(snake_from, 40);
            assert(is_snake_case(seq!['s', 't', 'a', 'r', 't', 'u', 'p', '_', 's', 't', 'a', 'l', 'e', '_', 'd', 'a', 't', 'e']));
        },
        FetchReason::StartupRefreshInterval => {
            reveal_strlit("startup_refresh_interval");
            assert("startup_refresh_interval"@ =~= seq!['s', 't', 'a', 'r', 't', 'u', 'p', '_', 'r', 'e', 'f', 'r', 'e', 's', 'h', '_', 'i', 'n', 't', 'e', 'r', 'v', 'a', 'l']);
            reveal_with_fuel(snake_from, 40);
            assert(is_snake_case(seq!['s', 't', 'a', 'r', 't', 'u', 'p', '_', 'r', 'e', 'f', 'r', 'e', 's', 'h', '_', 'i', 'n', 't', 'e', 'r', 'v', 'a', 'l']));
        },
        FetchReason::ManualRefresh => {
            reveal_strlit("manual_refresh");
            assert("manual_refresh"@ =~= seq!['m', 'a', 'n', 'u', 'a', 'l', '_', 'r', 'e', 'f', 'r', 'e', 's', 'h']);
            reveal_with_fuel(snake_from, 40);
            assert(is_snake_case(seq!['m', 'a', 'n', 'u', 'a', 'l', '_', 'r', 'e', 'f', 'r', 'e', 's', 'h']));
        },
        FetchReason::RefreshTimer => {
            reveal_strlit("refresh_timer");
            assert("refresh_timer"@ =~= seq!['r', 'e', 'f', 'r', 'e', 's', 'h', '_', 't', 'i', 'm', 'e', 'r']);
            reveal_with_fuel(snake_from, 40);
            assert(is_snake_case(seq!['r', 'e', 'f', 'r', 'e', 's', 'h', '_', 't', 'i', 'm', 'e', 'r']));
        },
        FetchReason::MidnightRollover => {
            reveal_strlit("midnight_rollover");
            assert("midnight_rollover"@ =~= seq!['m', 'i', 'd', 'n', 'i', 'g', 'h', 't', '_', 'r', 'o', 'l', 'l', 'o', 'v', 'e', 'r']);
            reveal_with_fuel(snake_from, 40);
            assert(is_snake_case(seq!['m', 'i', 'd', 'n', 'i', 'g', 'h', 't', '_', 'r', 'o', 'l', 'l', 'o', 'v', 'e', 'r']));
        },
        FetchReason::StaleDateCheck => {
            reveal_strlit("stale_date_check");
            assert("stale_date_check"@ =~= seq!['s', 't', 'a', 'l', 'e', '_', 'd', 'a', 't', 'e', '_', 'c', 'h', 'e', 'c', 'k']);
            reveal_with_fuel(snake_from, 40);
            assert(is_snake_case(seq!['s', 't', 'a', 'l', 'e', '_', 'd', 'a', 't', 'e', '_', 'c', 'h', 'e', 'c', 'k']));
        },
        FetchReason::RetryTimer => {
            reveal_strlit("retry_timer");
            assert("retry_timer"@ =~= seq!['r', 'e', 't', 'r', 'y', '_', 't', 'i', 'm', 'e', 'r']);
            reveal_with_fuel(snake_from, 40);
            assert(is_snake_case(seq!['r', 'e', 't', 'r', 'y', '_', 't', 'i', 'm', 'e', 'r']));
        },
        FetchReason::SelectionMissingCache => {
            reveal_strlit("selection_missing_cache");
            assert("selection_missing_cache"@ =~= seq!['s', 'e', 'l', 'e', 'c', 't', 'i', 'o', 'n', '_', 'm', 'i', 's', 's', 'i', 'n', 'g', '_', 'c', 'a', 'c', 'h', 'e']);
            reveal_with_fuel(snake_from, 40);
            assert(is_snake_case(seq!['s', 'e', 'l', 'e', 'c', 't', 'i', 'o', 'n', '_', 'm', 'i', 's', 's', 'i', 'n', 'g', '_', 'c', 'a', 'c', 'h', 'e']));
        },
        FetchReason::SelectionStaleDate => {
            reveal_strlit("selection_stale_date");
            assert("selection_stale_date"@ =~= seq!['s', 'e', 'l', 'e', 'c', 't', 'i', 'o', 'n', '_', 's', 't', 'a', 'l', 'e', '_', 'd', 'a', 't', 'e']);
            reveal_with_fuel(snake_from, 40);
            assert(is_snake_case(seq!['s', 'e', 'l', 'e', 'c', 't', 'i', 'o', 'n', '_', 's', 't', 'a', 'l', 'e', '_', 'd', 'a', 't', 'e']));
        },
        FetchReason::SelectionRefreshInterval => {
            reveal_strlit("selection_refresh_interval");
            assert("selection_refresh_interval"@ =~= seq!['s', 'e', 'l', 'e', 'c', 't', 'i', 'o', 'n', '_', 'r', 'e', 'f', 'r', 'e', 's', 'h', '_', 'i', 'n', 't', 'e', 'r', 'v', 'a', 'l']);
            reveal_with_fuel(snake_from, 40);
            assert(is_snake_case(seq!['s', 'e', 'l', 'e', 'c', 't', 'i', 'o', 'n', '_', 'r', 'e', 'f', 'r', 'e', 's', 'h', '_', 'i', 'n', 't', 'e', 'r', 'v', 'a', 'l']));
        },
        FetchReason::LanguageSwitchMissingCache => {
            reveal_strlit("language_switch_missing_cache");
            assert("language_switch_missing_cache"@ =~= seq!['l', 'a', 'n', 'g', 'u', 'a', 'g', 'e', '_', 's', 'w', 'i', 't', 'c', 'h', '_', 'm', 'i', 's', 's', 'i', 'n', 'g', '_', 'c', 'a', 'c', 'h', 'e']);
            reveal_with_fuel(snake_from, 40);
            assert(is_snake_case(seq!['l', 'a', 'n', 'g', 'u', 'a', 'g', 'e', '_', 's', 'w', 'i', 't', 'c', 'h', '_', 'm', 'i', 's', 's', 'i', 'n', 'g', '_', 'c', 'a', 'c', 'h', 'e']));
        },
        FetchReason::LanguageSwitchStaleDate => {
            reveal_strlit("language_switch_stale_date");
            assert("language_switch_stale_date"@ =~= seq!['l', 'a', 'n', 'g', 'u', 'a', 'g', 'e', '_', 's', 'w', 'i', 't', 'c', 'h', '_', 's', 't', 'a', 'l', 'e', '_', 'd', 'a', 't', 'e']);
            reveal_with_fuel(snake_from, 40);
            assert(is_snake_case(seq!['l', 'a', 'n', 'g', 'u', 'a', 'g', 'e', '_', 's', 'w', 'i', 't', 'c', 'h', '_', 's', 't', 'a', 'l', 'e', '_', 'd', 'a', 't', 'e']));
        },
        FetchReason::LanguageSwitchRefreshInterval => {
            reveal_strlit("language_switch_refresh_interval");
            assert("language_switch_refresh_interval"@ =~= seq!['l', 'a', 'n', 'g', 'u', 'a', 'g', 'e', '_', 's', 'w', 'i', 't', 'c', 'h', '_', 'r', 'e', 'f', 'r', 'e', 's', 'h', '_', 'i', 'n', 't', 'e', 'r', 'v', 'a', 'l']);
            reveal_with_fuel(snake_from, 40);
            assert(is_snake_case(seq!['l', 'a', 'n', 'g', 'u', 'a', 'g', 'e', '_', 's', 'w', 'i', 't', 'c', 'h', '_', 'r', 'e', 'f', 'r', 'e', 's', 'h', '_', 'i', 'n', 't', 'e', 'r', 'v', 'a', 'l']));
        },
        FetchReason::PrefetchMissingCache => {
            reveal_strlit("prefetch_missing_cache");
            assert("prefetch_missing_cache"@ =~= seq!['p', 'r', 'e', 'f', 'e', 't', 'c', 'h', '_', 'm', 'i', 's', 's', 'i', 'n', 'g', '_', 'c', 'a', 'c', 'h', 'e']);
            reveal_with_fuel(snake_from, 40);
            assert(is_snake_case(seq!['p', 'r', 'e', 'f', 'e', 't', 'c', 'h', '_', 'm', 'i', 's', 's', 'i', 'n', 'g', '_', 'c', 'a', 'c', 'h', 'e']));
        },
        FetchReason::PrefetchStaleDate => {
            reveal_strlit("prefetch_stale_date");
            assert("prefetch_stale_date"@ =~= seq!['p', 'r', 'e', 'f', 'e', 't', 'c', 'h', '_', 's', 't', 'a', 'l', 'e', '_', 'd', 'a', 't', 'e']);
            reveal_with_fuel(snake_from, 40);
            assert(is_snake_case(seq!['p', 'r', 'e', 'f', 'e', 't', 'c', 'h', '_', 's', 't', 'a', 'l', 'e', '_', 'd', 'a', 't', 'e']));
        },
        FetchReason::PrintTodayCli => {
            reveal_strlit("print_today_cli");
            assert("print_today_cli"@ =~= seq!['p', 'r', 'i', 'n', 't', '_', 't', 'o', 'd', 'a', 'y', '_', 'c', 'l', 'i']);
            reveal_with_fuel(snake_from, 40);
            assert(is_snake_case(seq!['p', 'r', 'i', 'n', 't', '_', 't', 'o', 'd', 'a', 'y', '_', 'c', 'l', 'i']));
        },
        }
    }
}

/// Context attached to a fetch request for logging and policy decisions.
pub struct FetchContext {
    pub mode: FetchMode,
    pub reason: FetchReason,
    pub detail: String,
}

impl FetchContext {
    /// A context with no extra detail.
    pub fn new(mode: FetchMode, reason: FetchReason) -> (r: Self)
        ensures
            r.mode == mode,
            r.reason == reason,
            r.detail@ == Seq::<char>::empty(),
    {
        FetchContext { mode, reason, detail: String::new() }
    }
}

/// Result of fetching or parsing a lunch API payload.
pub struct FetchOutput {
    pub ok: bool,
    pub is_stale: bool,
    pub error_message: String,
    pub today_menu: Option<TodayMenu>,
    pub restaurant_name: String,
    pub restaurant_url: String,
    pub provider: Provider,
    pub raw_json: String,
    pub payload_date: String,
}


/// A fetch result as plain values.
pub struct FetchOutputV {
    pub ok: bool,
    pub is_stale: bool,
    pub error_message: Seq<char>,
    pub today_menu: Option<crate::model::TodayMenuV>,
    pub restaurant_name: Seq<char>,
    pub restaurant_url: Seq<char>,
    pub provider: Provider,
    pub raw_json: Seq<char>,
    pub payload_date: Seq<char>,
}

impl DeepView for FetchOutput {
    type V = FetchOutputV;

    open spec fn deep_view(&self) -> FetchOutputV {
        FetchOutputV {
            ok: self.ok,
            is_stale: self.is_stale,
            error_message: self.error_message@,
            today_menu: self.today_menu.deep_view(),
            restaurant_name: self.restaurant_name@,
            restaurant_url: self.restaurant_url@,
            provider: self.provider,
            raw_json: self.raw_json@,
            payload_date: self.payload_date@,
        }
    }
}

}
