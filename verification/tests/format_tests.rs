use lunch_tray::format::{
    date_and_time_line, format_display_date, menu_heading, menu_heading_for_restaurant,
    menu_price_for_display, menu_price_for_restaurant_display, normalize_optional, normalize_text,
    renderable_menu_components, split_component_suffix, text_for,
};
use lunch_tray::model::{MenuGroup, MenuGroupPresentation, TodayMenu};
use lunch_tray::price::PriceGroups;
use lunch_tray::restaurant::Provider;

fn group(name: &str, price: &str, components: Vec<String>) -> MenuGroup {
    MenuGroup {
        name: name.to_string(),
        price: price.to_string(),
        prices: Vec::new(),
        presentation: MenuGroupPresentation::Standard,
        components,
        component_recipe_ids: Vec::new(),
        component_recipe_details: Vec::new(),
    }
}

fn groups(student: bool, staff: bool, guest: bool, names: bool) -> PriceGroups {
    PriceGroups { student, staff, guest, names }
}

#[test]
fn extracts_compass_suffix_with_parentheses() {
    let (main, suffix) =
        split_component_suffix("Organic tofu and vegetables in teriyaki sauce (*, A, G, ILM, L, M, Veg, VS)");
    assert_eq!(main, "Organic tofu and vegetables in teriyaki sauce");
    assert_eq!(suffix, "(*, A, G, ILM, L, M, Veg, VS)");
}

#[test]
fn extracts_suffix_when_newline_precedes_parentheses() {
    let (main, suffix) = split_component_suffix("Roasted rainbow trout in teriyaki sauce\n (*, A, G, ILM, L, M, VS)");
    assert_eq!(main, "Roasted rainbow trout in teriyaki sauce");
    assert_eq!(suffix, "(*, A, G, ILM, L, M, VS)");
}

#[test]
fn extracts_inline_suffix_without_parentheses() {
    let (main, suffix) = split_component_suffix("Chili and sesame-spiced organic tofu A, ILM, L, M, Veg, VS");
    assert_eq!(main, "Chili and sesame-spiced organic tofu");
    assert_eq!(suffix, "(A, ILM, L, M, Veg, VS)");
}

#[test]
fn removes_empty_trailing_group_and_normalizes_spacing() {
    let (main, suffix) = split_component_suffix("Juustoista pinaattikastiketta ( A, L) ()");
    assert_eq!(main, "Juustoista pinaattikastiketta");
    assert_eq!(suffix, "(A, L)");
}

#[test]
fn keeps_non_allergen_tail_as_main_text() {
    let (main, suffix) = split_component_suffix("Juusto, edam, viipale, sk ()");
    assert_eq!(main, "Juusto, edam, viipale, sk");
    assert_eq!(suffix, "");
}

#[test]
fn extracts_huomen_style_suffix_with_comma_in_main() {
    let (main, suffix) = split_component_suffix("Lihapullia, pippuri-rakuunakastiketta ja kermaperunaa (G, L)");
    assert_eq!(main, "Lihapullia, pippuri-rakuunakastiketta ja kermaperunaa");
    assert_eq!(suffix, "(G, L)");
}

#[test]
fn skips_empty_renderable_components() {
    let g = group("Lunch", "", vec![]);
    assert!(renderable_menu_components(&g).is_empty());
}

#[test]
fn skips_blank_renderable_components() {
    let g = group("Lunch", "", vec!["".to_string(), "   ".to_string(), "\n\t".to_string()]);
    assert!(renderable_menu_components(&g).is_empty());
}

#[test]
fn keeps_only_valid_renderable_components() {
    let g = group(
        "Lunch",
        "",
        vec!["".to_string(), " ".to_string(), "Soup (L)".to_string(), "()".to_string()],
    );
    assert_eq!(renderable_menu_components(&g), vec![("Soup".to_string(), "(L)".to_string())]);
}

#[test]
fn compass_heading_truncates_extra_price_decimals() {
    let g = group("Lunch buffet", "student 3,100 € / staff 8,567 € / guest 10,000 €", Vec::new());
    let heading = menu_heading(&g, Provider::Compass, true, groups(true, true, true, true));
    assert_eq!(heading, "Lunch buffet - student 3,10 € / staff 8,56 € / guest 10,00 €");
}

#[test]
fn compass_heading_preserves_two_or_fewer_price_decimals() {
    let g = group("Lunch buffet", "student 3,10 € / staff 8,5 €", Vec::new());
    let heading = menu_heading(&g, Provider::Compass, true, groups(true, true, false, true));
    assert_eq!(heading, "Lunch buffet - student 3,10 € / staff 8,5 €");
}

#[test]
fn compass_heading_can_hide_price_group_names() {
    let g = group("Lunch buffet", "student 3,10 € / staff 8,5 € / guest 10,00 €", Vec::new());
    let heading = menu_heading(&g, Provider::Compass, true, groups(true, true, false, false));
    assert_eq!(heading, "Lunch buffet - 3,10 € / 8,5 €");
}

#[test]
fn compass_heading_hides_abbreviated_price_group_names_with_periods() {
    let g = group("Päivän soppa", "opisk. 3,10€", Vec::new());
    let heading = menu_heading(&g, Provider::Compass, true, groups(true, false, false, false));
    assert_eq!(heading, "Päivän soppa - 3,10 €");
}

#[test]
fn raw_provider_price_display_normalizes_euro_spacing() {
    let g = group("Lunch", "12,50/3,10€", Vec::new());
    let price = menu_price_for_display(&g, Provider::LunchApi, true, groups(true, false, false, false));
    assert_eq!(price, "12,50/3,10 €");
}

#[test]
fn tietoteknia_student_only_uses_inferred_student_price_from_unlabeled_pair() {
    let g = group("Pääruoka", "13,30 € / 3,10 €", Vec::new());
    let price = menu_price_for_restaurant_display(&g, "0439", Provider::Compass, true, groups(true, false, false, false));
    assert_eq!(price, "3,10 €");
}

#[test]
fn tietoteknia_staff_or_guest_uses_non_student_price_from_unlabeled_pair() {
    let g = group("Pääruoka", "13,30 € / 3,10 €", Vec::new());
    for gs in [groups(false, true, false, false), groups(false, false, true, false)] {
        let price = menu_price_for_restaurant_display(&g, "0439", Provider::Compass, true, gs);
        assert_eq!(price, "13,30 €");
    }
}

#[test]
fn tietoteknia_student_only_falls_back_to_single_unlabeled_price() {
    let g = group("Kesäsalaatti", "11,00 €", Vec::new());
    let price = menu_price_for_restaurant_display(&g, "0439", Provider::Compass, true, groups(true, false, false, false));
    assert_eq!(price, "11,00 €");
}

#[test]
fn tietoteknia_headings_use_clean_display_names() {
    let cases = [
        ("LUNCH BUFFEE", "Main course"),
        ("PÄIVÄN SOPPA", "Keitto"),
        ("LOUNAS BUFFA", "Pääruoka"),
        ("JÄLKKÄRI", "Jälkiruoka"),
    ];
    for (raw, expected) in cases {
        let g = group(raw, "", Vec::new());
        let heading = menu_heading_for_restaurant(&g, "0439", Provider::Compass, false, groups(true, false, false, true));
        assert_eq!(heading, expected);
    }
}

#[test]
fn non_tietoteknia_headings_are_not_remapped() {
    let g = group("LOUNAS BUFFA", "", Vec::new());
    let heading = menu_heading_for_restaurant(&g, "0436", Provider::Compass, false, groups(true, false, false, true));
    assert_eq!(heading, "LOUNAS BUFFA");
}

#[test]
fn normalizing_collapses_whitespace_and_is_idempotent() {
    let once = normalize_text("  Lohi \n\t keitto  ");
    assert_eq!(once, "Lohi keitto");
    assert_eq!(normalize_text(&once), once);
    assert_eq!(normalize_optional(None), "");
    assert_eq!(normalize_optional(Some(" a  b ")), "a b");
}

#[test]
fn display_dates_follow_the_language() {
    assert_eq!(format_display_date("2026-07-24", "fi"), "24.7.2026");
    assert_eq!(format_display_date("2026-07-24", "en"), "7/24/2026");
    assert_eq!(format_display_date("not a date", "en"), "not a date");
}

#[test]
fn heading_without_price_or_name_falls_back() {
    let g = group("", "", Vec::new());
    assert_eq!(menu_heading(&g, Provider::Compass, true, groups(true, true, true, true)), "Menu");
    let menu = TodayMenu { date_iso: "2026-07-24".to_string(), lunch_time: "10.30-14.00".to_string(), menus: Vec::new() };
    assert_eq!(date_and_time_line(Some(&menu), "fi"), "24.7.2026 10.30-14.00");
    assert_eq!(text_for("fi", "loading"), "Ladataan ruokalistaa...");
    assert_eq!(text_for("en", "noMenu"), "No lunch menu available for today.");
    assert_eq!(text_for("en", "unknownKey"), "unknownKey");
}
