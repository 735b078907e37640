//! User settings as the application state holds them.

use vstd::prelude::*;

verus! {

/// Persisted user settings.
pub struct Settings {
    pub restaurant_code: String,
    pub language: String,
    pub enable_antell_restaurants: bool,
    pub show_prices: bool,
    pub show_allergens: bool,
    pub highlight_gluten_free: bool,
    pub highlight_veg: bool,
    pub highlight_lactose_free: bool,
    pub animations_enabled: bool,
    pub show_student_price: bool,
    pub show_staff_price: bool,
    pub show_guest_price: bool,
    pub hide_expensive_student_meals: bool,
    pub refresh_minutes: u32,
    pub theme: String,
    pub widget_scale: String,
    pub enable_logging: bool,
    pub last_updated_epoch_ms: i64,
}

/// The settings as plain values.
pub struct SettingsV {
    pub restaurant_code: Seq<char>,
    pub language: Seq<char>,
    pub enable_antell_restaurants: bool,
    pub show_prices: bool,
    pub show_allergens: bool,
    pub highlight_gluten_free: bool,
    pub highlight_veg: bool,
    pub highlight_lactose_free: bool,
    pub animations_enabled: bool,
    pub show_student_price: bool,
    pub show_staff_price: bool,
    pub show_guest_price: bool,
    pub hide_expensive_student_meals: bool,
    pub refresh_minutes: u32,
    pub theme: Seq<char>,
    pub widget_scale: Seq<char>,
    pub enable_logging: bool,
    pub last_updated_epoch_ms: i64,
}

impl DeepView for Settings {
    type V = SettingsV;

    open spec fn deep_view(&self) -> SettingsV {
        SettingsV {
            restaurant_code: self.restaurant_code@,
            language: self.language@,
            enable_antell_restaurants: self.enable_antell_restaurants,
            show_prices: self.show_prices,
            show_allergens: self.show_allergens,
            highlight_gluten_free: self.highlight_gluten_free,
            highlight_veg: self.highlight_veg,
            highlight_lactose_free: self.highlight_lactose_free,
            animations_enabled: self.animations_enabled,
            show_student_price: self.show_student_price,
            show_staff_price: self.show_staff_price,
            show_guest_price: self.show_guest_price,
            hide_expensive_student_meals: self.hide_expensive_student_meals,
            refresh_minutes: self.refresh_minutes,
            theme: self.theme@,
            widget_scale: self.widget_scale@,
            enable_logging: self.enable_logging,
            last_updated_epoch_ms: self.last_updated_epoch_ms,
        }
    }
}

impl Clone for Settings {
    fn clone(&self) -> (r: Self)
        ensures
            r.deep_view() == self.deep_view(),
    {
        Settings {
            restaurant_code: self.restaurant_code.clone(),
            language: self.language.clone(),
            enable_antell_restaurants: self.enable_antell_restaurants,
            show_prices: self.show_prices,
            show_allergens: self.show_allergens,
            highlight_gluten_free: self.highlight_gluten_free,
            highlight_veg: self.highlight_veg,
            highlight_lactose_free: self.highlight_lactose_free,
            animations_enabled: self.animations_enabled,
            show_student_price: self.show_student_price,
            show_staff_price: self.show_staff_price,
            show_guest_price: self.show_guest_price,
            hide_expensive_student_meals: self.hide_expensive_student_meals,
            refresh_minutes: self.refresh_minutes,
            theme: self.theme.clone(),
            widget_scale: self.widget_scale.clone(),
            enable_logging: self.enable_logging,
            last_updated_epoch_ms: self.last_updated_epoch_ms,
        }
    }
}


/// How strongly the popup's CRT effect is drawn.
#[derive(Clone, Copy, Debug, PartialEq, Eq, Structural)]
pub enum CrtProfile {
    Off,
    Lite,
    Full,
}

/// The CRT profile a settings value names: "lite", "full", and off for
/// anything else.
pub open spec fn crt_profile_of(value: Seq<char>) -> CrtProfile {
    if value == "lite"@ {
        CrtProfile::Lite
    } else if value == "full"@ {
        CrtProfile::Full
    } else {
        CrtProfile::Off
    }
}

impl CrtProfile {
    /// The profile a settings value names.
    pub fn from_settings(value: &str) -> (r: CrtProfile)
        ensures
            r == crt_profile_of(value@),
    {
        if crate::restaurant::str_eq(value, "lite") {
            CrtProfile::Lite
        } else if crate::restaurant::str_eq(value, "full") {
            CrtProfile::Full
        } else {
            CrtProfile::Off
        }
    }
}

}
