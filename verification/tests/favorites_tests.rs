use lunch_tray::favorites::{lower_snippets, FavoritesCache, is_variant_family, normalize_snippet, remove_variant_family, toggle_snippet};

#[test]
fn removes_near_miss_single_char_variant() {
    let input = vec!["lasagn".to_string(), "lasagne".to_string(), "pizza".to_string()];
    let out = remove_variant_family(input, "lasagne");
    assert_eq!(out, vec!["pizza".to_string()]);
}

#[test]
fn removes_boundary_contained_variants() {
    let input = vec![
        "tofu".to_string(),
        "tofu teriyaki".to_string(),
        "spicy tofu".to_string(),
        "soup".to_string(),
    ];
    let out = remove_variant_family(input, "tofu");
    assert_eq!(out, vec!["soup".to_string()]);
}

#[test]
fn keeps_unrelated_inner_substrings() {
    let input = vec!["ham".to_string(), "hamburger".to_string(), "soup".to_string()];
    let out = remove_variant_family(input, "ham");
    assert_eq!(out, vec!["hamburger".to_string(), "soup".to_string()]);
}

#[test]
fn family_rule_matches_case_insensitively() {
    assert!(is_variant_family("lasagne", "LASAGN".to_lowercase().as_str()));
    assert!(is_variant_family("tofu teriyaki", "tofu"));
    assert!(!is_variant_family("hamburger", "ham"));
}

#[test]
fn toggling_a_new_snippet_adds_it_normalized() {
    let (list, added) = toggle_snippet(vec!["pizza".to_string()], "  Tofu   teriyaki ");
    assert!(added);
    assert_eq!(list, Some(vec!["pizza".to_string(), "Tofu teriyaki".to_string()]));
}

#[test]
fn toggling_a_present_snippet_removes_its_family() {
    let (list, added) = toggle_snippet(vec!["tofu".to_string(), "spicy tofu".to_string(), "soup".to_string()], "TOFU");
    assert!(!added);
    assert_eq!(list, Some(vec!["soup".to_string()]));
}

#[test]
fn toggling_blank_text_does_nothing() {
    let (list, added) = toggle_snippet(vec!["soup".to_string()], "   ");
    assert!(!added);
    assert_eq!(list, None);
    assert_eq!(normalize_snippet("  a \n b "), "a b");
}

#[test]
fn the_popup_copy_reloads_only_when_due_and_changed() {
    let mut cache = FavoritesCache::new();
    assert!(!cache.is_fresh(0));
    assert!(cache.needs_reload(-1));
    cache.record_check(1_000, 42, Some(vec!["  Tofu  Teriyaki ".to_string(), " ".to_string(), "PÄHKINÄ".to_string()]));
    assert_eq!(cache.snippets_lower, vec!["tofu teriyaki".to_string(), "pähkinä".to_string()]);
    assert!(cache.is_fresh(1_999));
    assert!(!cache.is_fresh(2_000));
    assert!(!cache.needs_reload(42));
    assert!(cache.needs_reload(43));
    cache.record_check(2_000, 42, None);
    assert_eq!(cache.next_check_epoch_ms, 3_000);
    assert_eq!(cache.snippets_lower.len(), 2);
    cache.invalidate();
    assert!(!cache.is_fresh(2_500));
    assert!(cache.needs_reload(42));
    assert_eq!(lower_snippets(&vec!["Kana".to_string()]), vec!["kana".to_string()]);
}

#[test]
fn toggling_on_loaded_favorites_appends_or_removes_the_family() {
    let loaded = vec!["Pizza".to_string(), "spicy tofu".to_string(), "Soup".to_string()];
    let (list, added) = toggle_snippet(loaded.clone(), "  Tofu   wok ");
    assert!(added);
    assert_eq!(list, Some(vec!["Pizza".to_string(), "spicy tofu".to_string(), "Soup".to_string(), "Tofu wok".to_string()]));
    let (list, added) = toggle_snippet(loaded, "SPICY tofu");
    assert!(!added);
    assert_eq!(list, Some(vec!["Pizza".to_string(), "Soup".to_string()]));
}
