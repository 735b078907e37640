//! The restaurants the tray knows, and how each one is fetched.

use vstd::prelude::*;
use crate::text::str_chars;

verus! {

/// Where a restaurant's menu comes from.
#[derive(Clone, Copy, Debug, PartialEq, Eq, Structural)]
pub enum Provider {
    LunchApi,
    Compass,
}

/// A restaurant: its stable code (and the older numeric code that saved
/// settings may still hold), display name, web page, provider, whether its
/// menu is published in Finnish only, and whether it is an Antell restaurant.
#[derive(Clone, Copy)]
pub struct Restaurant {
    pub code: &'static str,
    pub legacy_code: Option<&'static str>,
    pub name: &'static str,
    pub url: Option<&'static str>,
    pub provider: Provider,
    pub finnish_only: bool,
    pub antell: bool,
}

/// The stable key of a provider, used in cache file names and logs.
pub fn provider_key(provider: Provider) -> (r: &'static str)
    ensures
        r@ == provider_key_spec(provider),
{
    match provider {
        Provider::LunchApi => "lunch-api",
        Provider::Compass => "compass",
    }
}

pub open spec fn provider_key_spec(provider: Provider) -> Seq<char> {
    match provider {
        Provider::LunchApi => "lunch-api"@,
        Provider::Compass => "compass"@,
    }
}

/// The language a restaurant's menu is fetched in: Finnish for
/// Finnish-only restaurants, else the UI language.
pub open spec fn fetch_language(finnish_only: bool, language: Seq<char>) -> Seq<char> {
    if finnish_only { "fi"@ } else { language }
}

/// The language to fetch a restaurant's menu in.
pub fn effective_fetch_language(restaurant: Restaurant, language: &str) -> (r: String)
    ensures
        r@ == fetch_language(restaurant.finnish_only, language@),
{
    if restaurant.finnish_only {
        crate::text::owned("fi")
    } else {
        crate::text::owned(language)
    }
}

/// How many restaurants are offered, with or without the Antell ones.
pub open spec fn restaurant_count(enable_antell: bool) -> nat {
    if enable_antell { 10 } else { 8 }
}

/// The restaurant table, in menu order.
pub open spec fn all_restaurants() -> Seq<Restaurant> {
    seq![
        Restaurant { code: "snellmania", legacy_code: Some("0437"), name: "Snellmania", url: Some("https://www.compass-group.fi/ravintolat-ja-ruokalistat/foodco/kaupungit/kuopio/snellmania/"), provider: Provider::LunchApi, finnish_only: false, antell: false },
        Restaurant { code: "snellari", legacy_code: None, name: "Snellari", url: Some("https://www.compass-group.fi/ravintolat-ja-ruokalistat/foodco/kaupungit/kuopio/snellari/"), provider: Provider::LunchApi, finnish_only: false, antell: false },
        Restaurant { code: "canthia", legacy_code: Some("0436"), name: "Canthia", url: Some("https://www.compass-group.fi/ravintolat-ja-ruokalistat/foodco/kaupungit/kuopio/canthia/"), provider: Provider::LunchApi, finnish_only: false, antell: false },
        Restaurant { code: "tietoteknia", legacy_code: Some("0439"), name: "Tietoteknia", url: Some("https://www.compass-group.fi/ravintolat-ja-ruokalistat/foodco/kaupungit/kuopio/tietoteknia/"), provider: Provider::LunchApi, finnish_only: false, antell: false },
        Restaurant { code: "mediteknia", legacy_code: None, name: "Mediteknia", url: Some("https://www.compass-group.fi/ravintolat-ja-ruokalistat/foodco/kaupungit/kuopio/mediteknia/"), provider: Provider::LunchApi, finnish_only: false, antell: false },
        Restaurant { code: "antell-round", legacy_code: None, name: "Antell Round", url: None, provider: Provider::LunchApi, finnish_only: true, antell: true },
        Restaurant { code: "antell-highway", legacy_code: None, name: "Antell Highway", url: None, provider: Provider::LunchApi, finnish_only: true, antell: true },
        Restaurant { code: "bioteknia", legacy_code: None, name: "Bioteknia", url: None, provider: Provider::LunchApi, finnish_only: false, antell: false },
        Restaurant { code: "pranzeria", legacy_code: None, name: "Pranzeria", url: Some("https://www.sorrento.fi/pranzeria/"), provider: Provider::LunchApi, finnish_only: true, antell: false },
        Restaurant { code: "caari", legacy_code: Some("3488"), name: "Caari", url: None, provider: Provider::LunchApi, finnish_only: true, antell: false },
    ]
}

/// The restaurants offered, in menu order; the Antell ones only when enabled.
pub open spec fn restaurants(enable_antell: bool) -> Seq<Restaurant> {
    let a = all_restaurants();
    if enable_antell { a } else { seq![a[0], a[1], a[2], a[3], a[4], a[7], a[8], a[9]] }
}

/// All restaurants, Antell ones included or not, in menu order.
pub fn available_restaurants(enable_antell: bool) -> (r: Vec<Restaurant>)
    ensures
        r@ == restaurants(enable_antell),
        r@.len() == restaurant_count(enable_antell),
        forall|i: int| 0 <= i < r@.len() ==> (#[trigger] r@[i]).antell ==> enable_antell,
{
    let r = if enable_antell {
        vec![
            Restaurant { code: "snellmania", legacy_code: Some("0437"), name: "Snellmania", url: Some("https://www.compass-group.fi/ravintolat-ja-ruokalistat/foodco/kaupungit/kuopio/snellmania/"), provider: Provider::LunchApi, finnish_only: false, antell: false },
            Restaurant { code: "snellari", legacy_code: None, name: "Snellari", url: Some("https://www.compass-group.fi/ravintolat-ja-ruokalistat/foodco/kaupungit/kuopio/snellari/"), provider: Provider::LunchApi, finnish_only: false, antell: false },
            Restaurant { code: "canthia", legacy_code: Some("0436"), name: "Canthia", url: Some("https://www.compass-group.fi/ravintolat-ja-ruokalistat/foodco/kaupungit/kuopio/canthia/"), provider: Provider::LunchApi, finnish_only: false, antell: false },
            Restaurant { code: "tietoteknia", legacy_code: Some("0439"), name: "Tietoteknia", url: Some("https://www.compass-group.fi/ravintolat-ja-ruokalistat/foodco/kaupungit/kuopio/tietoteknia/"), provider: Provider::LunchApi, finnish_only: false, antell: false },
            Restaurant { code: "mediteknia", legacy_code: None, name: "Mediteknia", url: Some("https://www.compass-group.fi/ravintolat-ja-ruokalistat/foodco/kaupungit/kuopio/mediteknia/"), provider: Provider::LunchApi, finnish_only: false, antell: false },
            Restaurant { code: "antell-round", legacy_code: None, name: "Antell Round", url: None, provider: Provider::LunchApi, finnish_only: true, antell: true },
            Restaurant { code: "antell-highway", legacy_code: None, name: "Antell Highway", url: None, provider: Provider::LunchApi, finnish_only: true, antell: true },
            Restaurant { code: "bioteknia", legacy_code: None, name: "Bioteknia", url: None, provider: Provider::LunchApi, finnish_only: false, antell: false },
            Restaurant { code: "pranzeria", legacy_code: None, name: "Pranzeria", url: Some("https://www.sorrento.fi/pranzeria/"), provider: Provider::LunchApi, finnish_only: true, antell: false },
            Restaurant { code: "caari", legacy_code: Some("3488"), name: "Caari", url: None, provider: Provider::LunchApi, finnish_only: true, antell: false },
        ]
    } else {
        vec![
            Restaurant { code: "snellmania", legacy_code: Some("0437"), name: "Snellmania", url: Some("https://www.compass-group.fi/ravintolat-ja-ruokalistat/foodco/kaupungit/kuopio/snellmania/"), provider: Provider::LunchApi, finnish_only: false, antell: false },
            Restaurant { code: "snellari", legacy_code: None, name: "Snellari", url: Some("https://www.compass-group.fi/ravintolat-ja-ruokalistat/foodco/kaupungit/kuopio/snellari/"), provider: Provider::LunchApi, finnish_only: false, antell: false },
            Restaurant { code: "canthia", legacy_code: Some("0436"), name: "Canthia", url: Some("https://www.compass-group.fi/ravintolat-ja-ruokalistat/foodco/kaupungit/kuopio/canthia/"), provider: Provider::LunchApi, finnish_only: false, antell: false },
            Restaurant { code: "tietoteknia", legacy_code: Some("0439"), name: "Tietoteknia", url: Some("https://www.compass-group.fi/ravintolat-ja-ruokalistat/foodco/kaupungit/kuopio/tietoteknia/"), provider: Provider::LunchApi, finnish_only: false, antell: false },
            Restaurant { code: "mediteknia", legacy_code: None, name: "Mediteknia", url: Some("https://www.compass-group.fi/ravintolat-ja-ruokalistat/foodco/kaupungit/kuopio/mediteknia/"), provider: Provider::LunchApi, finnish_only: false, antell: false },
            Restaurant { code: "bioteknia", legacy_code: None, name: "Bioteknia", url: None, provider: Provider::LunchApi, finnish_only: false, antell: false },
            Restaurant { code: "pranzeria", legacy_code: None, name: "Pranzeria", url: Some("https://www.sorrento.fi/pranzeria/"), provider: Provider::LunchApi, finnish_only: true, antell: false },
            Restaurant { code: "caari", legacy_code: Some("3488"), name: "Caari", url: None, provider: Provider::LunchApi, finnish_only: true, antell: false },
        ]
    };
    assert(r@ =~= restaurants(enable_antell));
    r
}

/// The position of the first restaurant of `list` with the code `code`.
pub open spec fn position_of(list: Seq<Restaurant>, code: Seq<char>) -> Option<int>
    decreases list.len(),
{
    if list.len() == 0 {
        None
    } else {
        match position_of(list.drop_last(), code) {
            Some(i) => Some(i),
            None => if list.last().code@ == code { Some(list.len() - 1) } else { None },
        }
    }
}

pub proof fn lemma_position_of(list: Seq<Restaurant>, code: Seq<char>)
    ensures
        position_of(list, code) matches Some(i) ==> 0 <= i < list.len() && list[i].code@ == code
            && forall|j: int| 0 <= j < i ==> (#[trigger] list[j]).code@ != code,
        position_of(list, code) is None ==> forall|j: int| 0 <= j < list.len() ==> (#[trigger] list[j]).code@ != code,
    decreases list.len(),
{
    if list.len() > 0 {
        let p = list.drop_last();
        lemma_position_of(p, code);
        match position_of(p, code) {
            Some(i) => {
                assert(list[i] == p[i]);
                assert forall|j: int| 0 <= j < i implies (#[trigger] list[j]).code@ != code by {
                    assert(list[j] == p[j]);
                }
            },
            None => {
                assert forall|j: int| 0 <= j < list.len() - 1 implies (#[trigger] list[j]).code@ != code by {
                    assert(list[j] == p[j]);
                }
            },
        }
    }
}

/// The position of the first restaurant of `list` whose older code is `code`.
pub open spec fn legacy_position_of(list: Seq<Restaurant>, code: Seq<char>) -> Option<int>
    decreases list.len(),
{
    if list.len() == 0 {
        None
    } else {
        match legacy_position_of(list.drop_last(), code) {
            Some(i) => Some(i),
            None => if list.last().legacy_code matches Some(c) && c@ == code { Some(list.len() - 1) } else { None },
        }
    }
}

/// The restaurant with the given code among those offered; else the one
/// whose older code it is; else the first one.
pub open spec fn restaurant_lookup(code: Seq<char>, enable_antell: bool) -> Restaurant {
    match position_of(restaurants(enable_antell), code) {
        Some(i) => restaurants(enable_antell)[i],
        None => match legacy_position_of(restaurants(enable_antell), code) {
            Some(i) => restaurants(enable_antell)[i],
            None => restaurants(enable_antell)[0],
        },
    }
}

/// Whether two string slices hold the same characters.
pub fn str_eq(a: &str, b: &str) -> (r: bool)
    ensures
        r == (a@ == b@),
{
    let x = str_chars(a);
    let y = str_chars(b);
    crate::text::chars_eq(&x, &y)
}

/// The restaurant with the given code, or the first available one.
pub fn restaurant_for_code(code: &str, enable_antell: bool) -> (r: Restaurant)
    ensures
        r == restaurant_lookup(code@, enable_antell),
{
    let list = available_restaurants(enable_antell);
    proof {
        lemma_position_of(list@, code@);
    }
    match position_in(&list, code) {
        Some(i) => list[i],
        None => match legacy_position_in(&list, code) {
            Some(i) => list[i],
            None => list[0],
        },
    }
}

/// The position of the first restaurant of `list` whose older code is `code`.
fn legacy_position_in(list: &Vec<Restaurant>, code: &str) -> (r: Option<usize>)
    ensures
        match r {
            Some(i) => i < list@.len() && legacy_position_of(list@, code@) == Some(i as int),
            None => legacy_position_of(list@, code@) is None,
        },
{
    let mut i: usize = 0;
    while i < list.len()
        invariant
            i <= list.len(),
            legacy_position_of(list@.subrange(0, i as int), code@) is None,
        decreases list.len() - i,
    {
        assert(list@.subrange(0, i + 1).drop_last() =~= list@.subrange(0, i as int));
        assert(list@.subrange(0, i + 1).last() == list@[i as int]);
        let found = match list[i].legacy_code {
            Some(c) => str_eq(c, code),
            None => false,
        };
        if found {
            proof {
                lemma_legacy_found(list@, i as int + 1, code@, i as int);
            }
            return Some(i);
        }
        i += 1;
    }
    assert(list@.subrange(0, list.len() as int) =~= list@);
    None
}

proof fn lemma_legacy_found(list: Seq<Restaurant>, k: int, code: Seq<char>, p: int)
    requires
        0 < k <= list.len(),
        0 <= p < k,
        legacy_position_of(list.subrange(0, k), code) == Some(p),
    ensures
        legacy_position_of(list, code) == Some(p),
    decreases list.len() - k,
{
    if k < list.len() {
        assert(list.subrange(0, k + 1).drop_last() =~= list.subrange(0, k));
        lemma_legacy_found(list, k + 1, code, p);
    } else {
        assert(list.subrange(0, k) =~= list);
    }
}

/// The position of the first restaurant of `list` with the code `code`.
pub fn position_in(list: &Vec<Restaurant>, code: &str) -> (r: Option<usize>)
    ensures
        match r {
            Some(i) => position_of(list@, code@) == Some(i as int),
            None => position_of(list@, code@) is None,
        },
{
    let mut i: usize = 0;
    while i < list.len()
        invariant
            i <= list.len(),
            position_of(list@.subrange(0, i as int), code@) is None,
        decreases list.len() - i,
    {
        assert(list@.subrange(0, i + 1).drop_last() =~= list@.subrange(0, i as int));
        if str_eq(list[i].code, code) {
            proof {
                lemma_position_extends(list@, i as int + 1, code@);
            }
            return Some(i);
        }
        i += 1;
    }
    assert(list@.subrange(0, list.len() as int) =~= list@);
    None
}

proof fn lemma_position_extends(list: Seq<Restaurant>, k: int, code: Seq<char>)
    requires
        0 < k <= list.len(),
        position_of(list.subrange(0, k - 1), code) is None,
        list[k - 1].code@ == code,
    ensures
        position_of(list, code) == Some(k - 1),
    decreases list.len() - k,
{
    assert(list.subrange(0, k).drop_last() =~= list.subrange(0, k - 1));
    if k < list.len() {
        assert(list.subrange(0, k + 1).drop_last() =~= list.subrange(0, k));
        lemma_position_some_extends(list, k + 1, code, k - 1);
    } else {
        assert(list.subrange(0, k) =~= list);
    }
}

proof fn lemma_position_some_extends(list: Seq<Restaurant>, k: int, code: Seq<char>, p: int)
    requires
        0 < k <= list.len(),
        position_of(list.subrange(0, k - 1), code) == Some(p),
    ensures
        position_of(list, code) == Some(p),
    decreases list.len() - k,
{
    assert(list.subrange(0, k).drop_last() =~= list.subrange(0, k - 1));
    if k < list.len() {
        lemma_position_some_extends(list, k + 1, code, p);
    } else {
        assert(list.subrange(0, k) =~= list);
    }
}

/// The restaurant at a keyboard-shortcut position of the menu order.
pub fn restaurant_for_shortcut_index(index: usize, enable_antell: bool) -> (r: Option<Restaurant>)
    ensures
        match r {
            Some(x) => index < restaurant_count(enable_antell) && x == restaurants(enable_antell)[index as int],
            None => index >= restaurant_count(enable_antell),
        },
{
    let list = available_restaurants(enable_antell);
    if index < list.len() {
        Some(list[index])
    } else {
        None
    }
}

}
