use lunch_tray::api::{
    api_prices_display, closure_notice, display_closure_until_date, format_euro_amount,
    parse_iso_date, recipe_from_api, stable_recipe_id, ApiClosure, ApiFreshness, ApiGroup, ApiItem,
    ApiLocalizedText, ApiMenuResponse, ApiOffer, ApiPrice, ApiRecipe, ApiRestaurant, ApiService,
    ClosureEnvelope,
};
use lunch_tray::menu_payload::{
    failed_fetch_output, lunch_api_menu_url, lunch_api_output, parse_lunch_api_payload,
    parse_lunch_api_snapshot_payload, ApiSnapshotResponse, HttpReply, SnapshotMenu,
};
use lunch_tray::model::{MenuGroupPresentation, NutritionalValue, PriceAudience};
use lunch_tray::restaurant::{available_restaurants, restaurant_for_code};

fn price(amount: &str, audiences: Vec<PriceAudience>) -> ApiPrice {
    ApiPrice { amount: amount.to_string(), audiences }
}

fn item(name: &str, description: &str, tags: Vec<&str>, recipe: Option<ApiRecipe>) -> ApiItem {
    ApiItem {
        name: name.to_string(),
        description: description.to_string(),
        tags: tags.into_iter().map(|t| t.to_string()).collect(),
        recipe,
    }
}

fn fixture_with(id: &str, name: &str, status: &str, website_url: Option<&str>, is_stale: bool) -> ApiMenuResponse {
    ApiMenuResponse {
        api_version: "v1".to_string(),
        schema_version: 1,
        restaurant: ApiRestaurant {
            id: id.to_string(),
            name: ApiLocalizedText { fi: name.to_string(), en: name.to_string() },
            website_url: website_url.map(|u| u.to_string()),
        },
        date: "2026-07-24".to_string(),
        service: ApiService { status: status.to_string(), hours: " 10.30 - 14.00 ".to_string() },
        offers: vec![ApiOffer {
            label: "Kahvi ja pulla".to_string(),
            price: price("2.50", vec![]),
            description: "".to_string(),
        }],
        groups: vec![
            ApiGroup {
                title: "Jälkiruoka".to_string(),
                prices: vec![price("1.20", vec![PriceAudience::Student])],
                items: vec![item("Mustikkakiisseli", "", vec![], None)],
                sort_order: 3,
            },
            ApiGroup {
                title: "Kasvislounas".to_string(),
                prices: vec![
                    price("3.10", vec![PriceAudience::Student]),
                    price("7.50", vec![PriceAudience::Staff, PriceAudience::Guest]),
                ],
                items: vec![
                    item(
                        "Härkäpapupata",
                        "tomaattikastikkeessa",
                        vec!["VEG", " G "],
                        Some(ApiRecipe {
                            id: "recipe-1".to_string(),
                            name: "Härkäpapupata".to_string(),
                            ingredients: "Härkäpapu, tomaatti, mausteet".to_string(),
                            nutrition_per100g: vec![NutritionalValue {
                                name: "Energia".to_string(),
                                amount_bits: 0x42c8_0000,
                                unit: "kcal".to_string(),
                            }],
                            co2e_kilograms_per100g_bits: Some(0x3dcc_cccd),
                            diets: vec!["VEG".to_string(), "G".to_string()],
                        }),
                    ),
                    item("   ", "", vec![], None),
                ],
                sort_order: 1,
            },
            ApiGroup { title: "Tyhjä".to_string(), prices: vec![], items: vec![], sort_order: 0 },
            ApiGroup {
                title: "".to_string(),
                prices: vec![],
                items: vec![item("Satokauden kasviksia", "Satokauden kasviksia", vec![""], None)],
                sort_order: 5,
            },
        ],
        freshness: ApiFreshness { is_stale },
    }
}

fn fixture() -> ApiMenuResponse {
    fixture_with(
        "tietoteknia",
        "Tietoteknia",
        "serving",
        Some("https://example.invalid/tietoteknia"),
        false,
    )
}

#[test]
fn parses_normalized_api_fixture_with_prices_recipes_and_unpriced_items() {
    let restaurant = restaurant_for_code("tietoteknia", true);
    let result = parse_lunch_api_payload("{}", Ok(fixture()), restaurant, "fi").expect("valid fixture");
    assert!(result.ok);
    assert!(!result.is_stale);
    assert_eq!(result.payload_date, "2026-07-24");
    let today_menu = result.today_menu.expect("today_menu");
    assert_eq!(today_menu.menus.len(), 4);
    assert_eq!(today_menu.menus[0].presentation, MenuGroupPresentation::GeneralOffer);
    assert_eq!(today_menu.menus[1].prices.len(), 2);
    assert_eq!(
        today_menu.menus[1].component_recipe_details[0].as_ref().expect("recipe").ingredients_cleaned,
        "Härkäpapu, tomaatti, mausteet"
    );
    assert_eq!(today_menu.menus[3].name, "");
    assert_eq!(today_menu.menus[3].components, vec!["Satokauden kasviksia"]);
}

#[test]
fn menu_groups_are_ordered_and_built_from_dishes() {
    let restaurant = restaurant_for_code("tietoteknia", true);
    let result = parse_lunch_api_payload("raw", Ok(fixture()), restaurant, "fi").expect("valid fixture");
    assert_eq!(result.raw_json, "raw");
    assert_eq!(result.restaurant_name, "Tietoteknia");
    assert_eq!(result.restaurant_url, "https://example.invalid/tietoteknia");
    let menu = result.today_menu.expect("menu");
    assert_eq!(menu.lunch_time, "10.30 - 14.00");
    let names: Vec<&str> = menu.menus.iter().map(|g| g.name.as_str()).collect();
    assert_eq!(names, vec!["Kahvi ja pulla", "Kasvislounas", "Jälkiruoka", ""]);
    assert_eq!(menu.menus[0].price, "2,50 €");
    assert!(menu.menus[0].components.is_empty());
    assert_eq!(menu.menus[1].price, "Opiskelija 3,10 € / Henkilökunta 7,50 € / Vierailija 7,50 €");
    assert_eq!(menu.menus[1].components, vec!["Härkäpapupata – tomaattikastikkeessa (VEG, G)"]);
    assert_eq!(menu.menus[1].component_recipe_ids, vec![Some(stable_recipe_id("recipe-1"))]);
    assert_eq!(menu.menus[2].price, "Opiskelija 1,20 €");
}

#[test]
fn preserves_api_stale_marker() {
    let restaurant = restaurant_for_code("tietoteknia", true);
    let payload = fixture_with("tietoteknia", "Tietoteknia", "serving", Some("https://example.invalid/t"), true);
    let result = parse_lunch_api_payload("{}", Ok(payload), restaurant, "fi").expect("valid stale fixture");
    assert!(result.ok);
    assert!(result.is_stale);
}

#[test]
fn falls_back_to_local_restaurant_url_when_api_url_is_missing() {
    let restaurant = restaurant_for_code("tietoteknia", true);
    let payload = fixture_with("tietoteknia", "Tietoteknia", "serving", None, false);
    let result = parse_lunch_api_payload("{}", Ok(payload), restaurant, "fi").expect("valid fixture with missing URL");
    assert_eq!(
        result.restaurant_url,
        "https://www.compass-group.fi/ravintolat-ja-ruokalistat/foodco/kaupungit/kuopio/tietoteknia/"
    );
    let blank = fixture_with("tietoteknia", "Tietoteknia", "serving", Some("  "), false);
    let result = parse_lunch_api_payload("{}", Ok(blank), restaurant, "fi").expect("blank URL");
    assert_eq!(
        result.restaurant_url,
        "https://www.compass-group.fi/ravintolat-ja-ruokalistat/foodco/kaupungit/kuopio/tietoteknia/"
    );
}

#[test]
fn treats_future_service_status_as_unknown() {
    let restaurant = restaurant_for_code("tietoteknia", true);
    let payload = fixture_with("tietoteknia", "Tietoteknia", "temporarilyUnavailable", None, false);
    let result = parse_lunch_api_payload("{}", Ok(payload), restaurant, "en").expect("future status should remain readable");
    assert!(!result.ok);
    assert_eq!(result.error_message, "Menu unavailable");
    assert!(result.today_menu.is_none());
    let payload = fixture_with("tietoteknia", "Tietoteknia", "unknown", None, false);
    let result = parse_lunch_api_payload("{}", Ok(payload), restaurant, "fi").expect("unknown status");
    assert_eq!(result.error_message, "Ruokalistaa ei saatavilla");
}

#[test]
fn closed_service_has_no_menu_but_is_ok() {
    let restaurant = restaurant_for_code("tietoteknia", true);
    let payload = fixture_with("tietoteknia", "Tietoteknia", "closed", None, false);
    let result = parse_lunch_api_payload("{}", Ok(payload), restaurant, "fi").expect("closed");
    assert!(result.ok);
    assert!(result.today_menu.is_none());
    assert_eq!(result.payload_date, "2026-07-24");
}

#[test]
fn rejects_mismatched_restaurant_payload() {
    let restaurant = restaurant_for_code("snellmania", true);
    assert!(parse_lunch_api_payload("{}", Ok(fixture()), restaurant, "fi").is_err());
}

#[test]
fn rejects_unsupported_versions_and_passes_read_errors_on() {
    let restaurant = restaurant_for_code("tietoteknia", true);
    let mut payload = fixture();
    payload.schema_version = 2;
    assert_eq!(
        parse_lunch_api_payload("{}", Ok(payload), restaurant, "fi").err(),
        Some("unsupported Lunch API response".to_string())
    );
    assert_eq!(
        parse_lunch_api_payload("{}", Err("expected value".to_string()), restaurant, "fi").err(),
        Some("expected value".to_string())
    );
    assert_eq!(
        parse_lunch_api_payload("{}", Ok(fixture()), restaurant_for_code("caari", true), "fi").err(),
        Some("Lunch API restaurant mismatch".to_string())
    );
}

#[test]
fn closure_notice_comes_from_api_payload() {
    let envelope = || ClosureEnvelope {
        service: ApiService { status: "closed".to_string(), hours: String::new() },
        closure: Some(ApiClosure { ends_on: "2026-08-09".to_string(), reason: Some("Summer break".to_string()) }),
        date: "2026-07-24".to_string(),
    };
    assert_eq!(closure_notice(Some(envelope()), "en").as_deref(), Some("Closed until 9 August. Summer break"));
    assert_eq!(closure_notice(Some(envelope()), "fi").as_deref(), Some("Suljettu 9. elokuuta asti. Summer break"));
}

#[test]
fn closure_notice_includes_year_for_cross_year_closure() {
    let envelope = ClosureEnvelope {
        service: ApiService { status: "closed".to_string(), hours: String::new() },
        closure: Some(ApiClosure { ends_on: "2027-01-06".to_string(), reason: None }),
        date: "2026-12-20".to_string(),
    };
    assert_eq!(closure_notice(Some(envelope), "en").as_deref(), Some("Closed until 6 January 2027"));
}

#[test]
fn closure_notice_without_details_or_closure() {
    let closed = ClosureEnvelope {
        service: ApiService { status: "closed".to_string(), hours: String::new() },
        closure: None,
        date: String::new(),
    };
    assert_eq!(closure_notice(Some(closed), "fi").as_deref(), Some("Suljettu"));
    let serving = ClosureEnvelope {
        service: ApiService { status: "serving".to_string(), hours: String::new() },
        closure: None,
        date: String::new(),
    };
    assert_eq!(closure_notice(Some(serving), "en"), None);
    assert_eq!(closure_notice(None, "en"), None);
}

#[test]
fn closure_dates_fall_back_to_the_raw_text() {
    assert_eq!(display_closure_until_date("soon", "2026-07-24", "en"), "soon");
    assert_eq!(display_closure_until_date("2026-13-01", "2026-07-24", "en"), "2026-13-01");
    assert_eq!(display_closure_until_date("2026-08-09", "bad", "en"), "9 August 2026");
    assert_eq!(parse_iso_date("2026-08-09"), Some((2026, 8, 9)));
    assert_eq!(parse_iso_date("+2026-+8-09"), Some((2026, 8, 9)));
    assert_eq!(parse_iso_date("2026-08-09-01"), None);
    assert_eq!(parse_iso_date("2026-08-32"), None);
}

#[test]
fn euro_amounts_use_decimal_commas() {
    assert_eq!(format_euro_amount(" 3.10 "), "3,10 €");
    assert_eq!(api_prices_display(&[], "fi"), "");
    assert_eq!(
        api_prices_display(&[price("1.00", vec![PriceAudience::Student, PriceAudience::Guest])], "en"),
        "Student 1,00 € / Guest 1,00 €"
    );
}

#[test]
fn recipe_ids_are_fnv1a_hashes() {
    assert_eq!(stable_recipe_id(""), 0x811c9dc5);
    assert_eq!(stable_recipe_id("a"), 0xe40c292c);
    let recipe = recipe_from_api(ApiRecipe {
        id: "a".to_string(),
        name: "N".to_string(),
        ingredients: "I".to_string(),
        nutrition_per100g: vec![],
        co2e_kilograms_per100g_bits: None,
        diets: vec!["VEG".to_string(), "L".to_string()],
    });
    assert_eq!(recipe.recipe_id, 0xe40c292c);
    assert_eq!(recipe.diets, "VEG, L");
}

#[test]
fn http_replies_become_fetch_outputs() {
    let restaurant = restaurant_for_code("tietoteknia", true);
    let failed = lunch_api_output(restaurant, "fi", HttpReply::Failed("timed out".to_string()), Err(String::new()));
    assert!(!failed.ok);
    assert_eq!(failed.error_message, "timed out");
    assert_eq!(failed.restaurant_name, "Tietoteknia");
    let status = lunch_api_output(
        restaurant,
        "fi",
        HttpReply::Received { status: 503, body: "down".to_string() },
        Err(String::new()),
    );
    assert_eq!(status.error_message, "Lunch API returned HTTP 503");
    assert_eq!(status.raw_json, "down");
    let ok = lunch_api_output(restaurant, "fi", HttpReply::Received { status: 200, body: "{}".to_string() }, Ok(fixture()));
    assert!(ok.ok);
    assert_eq!(ok.raw_json, "{}");
    let unreadable = lunch_api_output(
        restaurant,
        "fi",
        HttpReply::Received { status: 200, body: "x".to_string() },
        Err("bad json".to_string()),
    );
    assert_eq!(unreadable.error_message, "bad json");
    let plain = failed_fetch_output(restaurant, "boom".to_string());
    assert_eq!(plain.raw_json, "");
    assert_eq!(
        lunch_api_menu_url("caari", "en", "2026-07-24"),
        "https://lunch.veeti.dev/v1/restaurants/caari/menu?language=en&date=2026-07-24"
    );
}

fn snapshot_menu(code: Option<&str>, parsed: Result<ApiMenuResponse, String>) -> SnapshotMenu {
    SnapshotMenu { code: code.map(|c| c.to_string()), raw: Some(format!("{{\"id\":\"{}\"}}", code.unwrap_or(""))), parsed }
}

fn snapshot(menus: Vec<SnapshotMenu>) -> ApiSnapshotResponse {
    ApiSnapshotResponse {
        api_version: "v1".to_string(),
        schema_version: 1,
        requested_language: "fi".to_string(),
        date: "2026-07-24".to_string(),
        menus,
    }
}

#[test]
fn parses_daily_snapshot_into_individual_cache_payloads() {
    let mut menus: Vec<SnapshotMenu> = available_restaurants(true)
        .into_iter()
        .map(|r| snapshot_menu(Some(r.code), Ok(fixture_with(r.code, r.name, "serving", None, false))))
        .collect();
    menus.push(snapshot_menu(Some("future-restaurant"), Ok(fixture_with("future-restaurant", "Future", "serving", None, false))));
    let results = parse_lunch_api_snapshot_payload(Ok(snapshot(menus)), "fi", "2026-07-24").expect("valid snapshot");
    assert_eq!(results.len(), 10);
    assert_eq!(results[0].0, "snellmania");
    assert_eq!(results[9].0, "caari");
    assert!(results.iter().all(|(_, result)| result.ok));
    assert!(results.iter().all(|(code, result)| result.raw_json.contains(code.as_str())));

    let partial_menus: Vec<SnapshotMenu> = available_restaurants(true)
        .into_iter()
        .filter(|r| r.code != "caari")
        .map(|r| snapshot_menu(Some(r.code), Ok(fixture_with(r.code, r.name, "serving", None, false))))
        .collect();
    let partial = parse_lunch_api_snapshot_payload(Ok(snapshot(partial_menus)), "fi", "2026-07-24").expect("partial");
    assert_eq!(partial.len(), 9);
    assert!(partial.iter().all(|(code, _)| code != "caari"));

    let mut malformed_menus: Vec<SnapshotMenu> = available_restaurants(true)
        .into_iter()
        .filter(|r| r.code != "caari")
        .map(|r| snapshot_menu(Some(r.code), Ok(fixture_with(r.code, r.name, "serving", None, false))))
        .collect();
    malformed_menus.push(snapshot_menu(Some("caari"), Err("missing field `apiVersion`".to_string())));
    let malformed = parse_lunch_api_snapshot_payload(Ok(snapshot(malformed_menus)), "fi", "2026-07-24").expect("malformed");
    assert_eq!(malformed.len(), 9);
    assert!(malformed.iter().all(|(code, _)| code != "caari"));
}

#[test]
fn snapshot_errors_name_their_reason() {
    assert_eq!(
        parse_lunch_api_snapshot_payload(Ok(snapshot(vec![])), "fi", "2026-07-24").err(),
        Some("Lunch API snapshot contained no supported restaurants".to_string())
    );
    assert_eq!(
        parse_lunch_api_snapshot_payload(Ok(snapshot(vec![])), "en", "2026-07-24").err(),
        Some("Lunch API snapshot language mismatch".to_string())
    );
    assert_eq!(
        parse_lunch_api_snapshot_payload(Ok(snapshot(vec![])), "fi", "2026-07-25").err(),
        Some("Lunch API snapshot date mismatch".to_string())
    );
    let dup = vec![
        snapshot_menu(Some("caari"), Ok(fixture_with("caari", "Caari", "serving", None, false))),
        snapshot_menu(Some("caari"), Ok(fixture_with("caari", "Caari", "serving", None, false))),
        snapshot_menu(None, Ok(fixture())),
    ];
    assert_eq!(parse_lunch_api_snapshot_payload(Ok(snapshot(dup)), "fi", "2026-07-24").expect("dup").len(), 1);
}
