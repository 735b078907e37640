use lunch_tray::cache::{cache_filename, legacy_cache_filename, sanitize_key_segment, strip_json_bom};
use lunch_tray::restaurant::Provider;

#[test]
fn strips_utf8_bom_from_cached_json() {
    assert_eq!(strip_json_bom("\u{feff}{\"ok\":true}".to_string()), "{\"ok\":true}");
    assert_eq!(strip_json_bom("{\"ok\":true}".to_string()), "{\"ok\":true}");
}

#[test]
fn cache_file_names_sanitize_each_segment() {
    assert_eq!(sanitize_key_segment("a b/c.d_e-f"), "a_b_c.d_e-f");
    assert_eq!(cache_filename(Provider::LunchApi, "antell round", "fi"), "lunch-api__antell_round__fi.json");
    assert_eq!(legacy_cache_filename(Provider::Compass, "0437", "en"), "compass|0437|en.json");
}
