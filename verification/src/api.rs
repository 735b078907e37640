//! The normalized lunch API: the payload it answers with, and how a
//! payload becomes a `FetchOutput` (menus, prices, recipes, closures).
//!
//! The JSON text is read into the `Api*` types by the caller; everything
//! after that is here.

use vstd::prelude::*;
use crate::fetch::{FetchOutput, FetchOutputV};
use crate::format::{decimal, parse_u32, parse_u32_chars, u32_to_decimal};
use crate::model::{
    MenuGroup, MenuGroupPresentation, MenuGroupV, MenuPrice, MenuPriceV, NutritionalValue,
    NutritionalValueV, PriceAudience, RecipeInfo, RecipeInfoV, TodayMenu, TodayMenuV,
};
use crate::normalize::{normalize_chars, normalize_text, normalized};
use crate::restaurant::{str_eq, Provider, Restaurant};
use crate::seqs::{deep, extend_chars, join, join_chars, split_chars, split_on};
use crate::text::{chars_to_string, owned, str_chars};

verus! {

// ---------------------------------------------------------------- payload

/// A menu response of the lunch API.
pub struct ApiMenuResponse {
    pub api_version: String,
    pub schema_version: u32,
    pub restaurant: ApiRestaurant,
    pub date: String,
    pub service: ApiService,
    pub offers: Vec<ApiOffer>,
    pub groups: Vec<ApiGroup>,
    pub freshness: ApiFreshness,
}

/// The restaurant a response is about.
pub struct ApiRestaurant {
    pub id: String,
    pub name: ApiLocalizedText,
    pub website_url: Option<String>,
}

/// A text in Finnish and English.
pub struct ApiLocalizedText {
    pub fi: String,
    pub en: String,
}

/// Whether the restaurant serves today, and its hours.
pub struct ApiService {
    pub status: String,
    pub hours: String,
}

/// Whether the API served an older copy of the menu.
pub struct ApiFreshness {
    pub is_stale: bool,
}

/// A price and the audiences it applies to.
pub struct ApiPrice {
    pub amount: String,
    pub audiences: Vec<PriceAudience>,
}

/// A general offer (not tied to a menu line).
pub struct ApiOffer {
    pub label: String,
    pub price: ApiPrice,
    pub description: String,
}

/// A menu line: its title, prices, dishes, and place in the menu order.
pub struct ApiGroup {
    pub title: String,
    pub prices: Vec<ApiPrice>,
    pub items: Vec<ApiItem>,
    pub sort_order: i32,
}

/// One dish of a menu line.
pub struct ApiItem {
    pub name: String,
    pub description: String,
    pub tags: Vec<String>,
    pub recipe: Option<ApiRecipe>,
}

/// Recipe details of a dish; the CO2 figure is carried as the bit pattern
/// of the `f32` the payload held.
pub struct ApiRecipe {
    pub id: String,
    pub name: String,
    pub ingredients: String,
    pub nutrition_per100g: Vec<NutritionalValue>,
    pub co2e_kilograms_per100g_bits: Option<u32>,
    pub diets: Vec<String>,
}

/// The part of a response that tells about a closure.
pub struct ClosureEnvelope {
    pub service: ApiService,
    pub closure: Option<ApiClosure>,
    pub date: String,
}

/// Until when a restaurant is closed, and why.
pub struct ApiClosure {
    pub ends_on: String,
    pub reason: Option<String>,
}

// ---------------------------------------------------------------- prices

/// The text with every `.` replaced by `,`.
pub open spec fn dots_to_commas(s: Seq<char>) -> Seq<char> {
    s.map_values(|c: char| if c == '.' { ',' } else { c })
}

/// A euro amount as displayed: normalized, decimal comma, then ` €`.
pub open spec fn euro_amount(amount: Seq<char>) -> Seq<char> {
    dots_to_commas(normalized(amount)) + " €"@
}

/// Formats a euro amount for display.
pub fn format_euro_amount(amount: &str) -> (r: String)
    ensures
        r@ == euro_amount(amount@),
{
    let norm = normalize_chars(&str_chars(amount));
    let mut out: Vec<char> = Vec::new();
    let mut i: usize = 0;
    while i < norm.len()
        invariant
            i <= norm.len(),
            out@ == dots_to_commas(norm@.subrange(0, i as int)),
        decreases norm.len() - i,
    {
        let c = norm[i];
        out.push(if c == '.' { ',' } else { c });
        i += 1;
        assert(out@ =~= dots_to_commas(norm@.subrange(0, i as int)));
    }
    assert(norm@.subrange(0, norm.len() as int) =~= norm@);
    extend_chars(&mut out, &str_chars(" €"));
    chars_to_string(&out)
}

/// The label of a price audience in a UI language.
pub open spec fn audience_label(language: Seq<char>, a: PriceAudience) -> Seq<char> {
    if language == "fi"@ {
        match a {
            PriceAudience::Student => "Opiskelija"@,
            PriceAudience::Staff => "Henkilökunta"@,
            PriceAudience::Guest => "Vierailija"@,
        }
    } else {
        match a {
            PriceAudience::Student => "Student"@,
            PriceAudience::Staff => "Staff"@,
            PriceAudience::Guest => "Guest"@,
        }
    }
}

fn audience_label_exec(language: &str, a: PriceAudience) -> (r: &'static str)
    ensures
        r@ == audience_label(language@, a),
{
    if str_eq(language, "fi") {
        match a {
            PriceAudience::Student => "Opiskelija",
            PriceAudience::Staff => "Henkilökunta",
            PriceAudience::Guest => "Vierailija",
        }
    } else {
        match a {
            PriceAudience::Student => "Student",
            PriceAudience::Staff => "Staff",
            PriceAudience::Guest => "Guest",
        }
    }
}

/// The display parts of one price: the amount alone when no audience is
/// named, else one `label amount` per audience.
pub open spec fn price_parts(p: ApiPrice, language: Seq<char>) -> Seq<Seq<char>> {
    let amount = euro_amount(p.amount@);
    if p.audiences@.len() == 0 {
        seq![amount]
    } else {
        p.audiences@.map_values(|a: PriceAudience| audience_label(language, a) + " "@ + amount)
    }
}

/// The display parts of several prices, in order.
pub open spec fn all_price_parts(prices: Seq<ApiPrice>, language: Seq<char>) -> Seq<Seq<char>>
    decreases prices.len(),
{
    if prices.len() == 0 {
        Seq::empty()
    } else {
        all_price_parts(prices.drop_last(), language) + price_parts(prices.last(), language)
    }
}

/// The price line of a menu group: all parts joined with ` / `.
pub open spec fn prices_display(prices: Seq<ApiPrice>, language: Seq<char>) -> Seq<char> {
    join(all_price_parts(prices, language), " / "@)
}

/// The display parts of one price.
pub fn price_parts_exec(price: &ApiPrice, language: &str) -> (parts: Vec<Vec<char>>)
    ensures
        deep(parts@) == price_parts(*price, language@),
{
    let mut parts: Vec<Vec<char>> = Vec::new();
    let amount = str_chars(format_euro_amount(price.amount.as_str()).as_str());
    if price.audiences.len() == 0 {
        parts.push(amount);
        proof {
            assert(deep(parts@) =~= seq![amount@]);
        }
    } else {
        let mut j: usize = 0;
        while j < price.audiences.len()
            invariant
                j <= price.audiences.len(),
                amount@ == euro_amount(price.amount@),
                deep(parts@) == price.audiences@.subrange(0, j as int).map_values(
                    |a: PriceAudience| audience_label(language@, a) + " "@ + amount@),
            decreases price.audiences.len() - j,
        {
            let mut part = str_chars(audience_label_exec(language, price.audiences[j]));
            extend_chars(&mut part, &str_chars(" "));
            extend_chars(&mut part, &amount);
            let ghost prev = parts@;
            let ghost pv = part@;
            parts.push(part);
            j += 1;
            proof {
                assert(deep(parts@) =~= deep(prev).push(pv));
                assert(price.audiences@.subrange(0, j as int) =~= price.audiences@.subrange(0, j - 1).push(price.audiences@[j - 1]));
                assert(deep(parts@) =~= price.audiences@.subrange(0, j as int).map_values(
                    |a: PriceAudience| audience_label(language@, a) + " "@ + amount@));
            }
        }
        assert(price.audiences@.subrange(0, price.audiences.len() as int) =~= price.audiences@);
    }
    parts
}

/// The price line of a single price.
pub fn single_price_display(price: &ApiPrice, language: &str) -> (r: String)
    ensures
        r@ == prices_display(seq![*price], language@),
{
    let parts = price_parts_exec(price, language);
    proof {
        let one = seq![*price];
        assert(one.drop_last() =~= Seq::<ApiPrice>::empty());
        assert(one.last() == *price);
        assert(all_price_parts(one.drop_last(), language@) =~= Seq::<Seq<char>>::empty());
        assert(all_price_parts(one, language@) =~= price_parts(*price, language@));
    }
    chars_to_string(&join_chars(&parts, &str_chars(" / ")))
}

/// Builds the display price line for a list of API prices.
pub fn api_prices_display(prices: &[ApiPrice], language: &str) -> (r: String)
    ensures
        r@ == prices_display(prices@, language@),
{
    let mut parts: Vec<Vec<char>> = Vec::new();
    let mut i: usize = 0;
    while i < prices.len()
        invariant
            i <= prices.len(),
            deep(parts@) == all_price_parts(prices@.subrange(0, i as int), language@),
        decreases prices.len() - i,
    {
        let more = price_parts_exec(&prices[i], language);
        let ghost before = parts@;
        let mut k: usize = 0;
        while k < more.len()
            invariant
                k <= more.len(),
                deep(parts@) == deep(before) + deep(more@).subrange(0, k as int),
            decreases more.len() - k,
        {
            let ghost prev = parts@;
            parts.push(crate::seqs::copy_chars(&more[k]));
            k += 1;
            assert(deep(parts@) =~= deep(prev).push(more@[k - 1]@));
            assert(deep(parts@) =~= deep(before) + deep(more@).subrange(0, k as int));
        }
        proof {
            assert(deep(more@).subrange(0, more.len() as int) =~= deep(more@));
            assert(prices@.subrange(0, i + 1).drop_last() =~= prices@.subrange(0, i as int));
            assert(deep(parts@) =~= all_price_parts(prices@.subrange(0, i + 1), language@));
        }
        i += 1;
    }
    assert(prices@.subrange(0, prices.len() as int) =~= prices@);
    chars_to_string(&join_chars(&parts, &str_chars(" / ")))
}

// ---------------------------------------------------------------- recipes

/// One step of the 32-bit FNV-1a hash.
pub open spec fn fnv_step(h: u32, b: u8) -> u32 {
    (((h ^ (b as u32)) as nat * 0x01000193nat) % 0x1_0000_0000nat) as u32
}

/// The 32-bit FNV-1a hash of some bytes.
pub open spec fn fnv1a(bytes: Seq<u8>) -> u32
    decreases bytes.len(),
{
    if bytes.len() == 0 {
        0x811c9dc5u32
    } else {
        fnv_step(fnv1a(bytes.drop_last()), bytes.last())
    }
}

/// The recipe id of an API recipe id: the FNV-1a hash of its UTF-8 bytes,
/// at least 1.
pub open spec fn recipe_id_of(id: Seq<char>) -> u32 {
    let h = fnv1a(vstd::utf8::encode_utf8(id));
    if h < 1 { 1 } else { h }
}

/// A stable numeric id for an API recipe id.
pub fn stable_recipe_id(value: &str) -> (r: u32)
    ensures
        r == recipe_id_of(value@),
{
    let bytes = value.as_bytes();
    let mut hash: u32 = 0x811c9dc5u32;
    let mut i: usize = 0;
    while i < bytes.len()
        invariant
            i <= bytes.len(),
            bytes@ == vstd::utf8::encode_utf8(value@),
            hash == fnv1a(bytes@.subrange(0, i as int)),
        decreases bytes.len() - i,
    {
        assert(bytes@.subrange(0, i + 1).drop_last() =~= bytes@.subrange(0, i as int));
        hash = hash ^ (bytes[i] as u32);
        hash = hash.wrapping_mul(0x01000193u32);
        i += 1;
    }
    assert(bytes@.subrange(0, bytes.len() as int) =~= bytes@);
    if hash < 1 { 1 } else { hash }
}

/// The strings' views.
pub open spec fn views(v: Seq<String>) -> Seq<Seq<char>> {
    v.map_values(|s: String| s@)
}

/// The recipe details an API recipe becomes.
pub open spec fn recipe_view(r: ApiRecipe) -> RecipeInfoV {
    RecipeInfoV {
        recipe_id: recipe_id_of(r.id@),
        name: r.name@,
        ingredients_cleaned: r.ingredients@,
        nutritional_values: r.nutrition_per100g@.map_values(|n: NutritionalValue| n.deep_view()),
        kg_co2e_per100g_bits: r.co2e_kilograms_per100g_bits,
        diets: join(views(r.diets@), ", "@),
    }
}

fn join_strings(items: &Vec<String>, sep: &str) -> (r: String)
    ensures
        r@ == join(views(items@), sep@),
{
    let mut parts: Vec<Vec<char>> = Vec::new();
    let mut i: usize = 0;
    while i < items.len()
        invariant
            i <= items.len(),
            deep(parts@) == views(items@.subrange(0, i as int)),
        decreases items.len() - i,
    {
        let ghost prev = parts@;
        let item = str_chars(items[i].as_str());
        parts.push(item);
        i += 1;
        assert(deep(parts@) =~= deep(prev).push(items@[i - 1]@));
        assert(items@.subrange(0, i as int) =~= items@.subrange(0, i - 1).push(items@[i - 1]));
        assert(deep(parts@) =~= views(items@.subrange(0, i as int)));
    }
    assert(items@.subrange(0, items.len() as int) =~= items@);
    chars_to_string(&join_chars(&parts, &str_chars(sep)))
}

/// Converts API recipe details into the recipe shown for a dish.
pub fn recipe_from_api(recipe: ApiRecipe) -> (r: RecipeInfo)
    ensures
        r.deep_view() == recipe_view(recipe),
{
    let recipe_id = stable_recipe_id(recipe.id.as_str());
    let diets = join_strings(&recipe.diets, ", ");
    let r = RecipeInfo {
        recipe_id,
        name: recipe.name,
        ingredients_cleaned: recipe.ingredients,
        nutritional_values: recipe.nutrition_per100g,
        kg_co2e_per100g_bits: recipe.co2e_kilograms_per100g_bits,
        diets,
    };
    assert(r.deep_view().nutritional_values =~= recipe_view(recipe).nutritional_values);
    r
}

// ---------------------------------------------------------------- dates and closures

/// An ISO date `year-month-day` with month 1..=12 and day 1..=31, each
/// part read as by `str::parse::<u32>`.
pub open spec fn iso_date(value: Seq<char>) -> Option<(u32, u32, u32)> {
    let parts = split_on(value, '-');
    if parts.len() != 3 {
        None
    } else {
        match (parse_u32(parts[0]), parse_u32(parts[1]), parse_u32(parts[2])) {
            (Some(y), Some(m), Some(d)) => if 1 <= m <= 12 && 1 <= d <= 31 { Some((y, m, d)) } else { None },
            _ => None,
        }
    }
}

/// Parses an ISO date into year, month and day.
pub fn parse_iso_date(value: &str) -> (r: Option<(u32, u32, u32)>)
    ensures
        r == iso_date(value@),
{
    let parts = split_chars(&str_chars(value), '-');
    if parts.len() != 3 {
        return None;
    }
    assert(deep(parts@)[0] == parts@[0]@ && deep(parts@)[1] == parts@[1]@ && deep(parts@)[2] == parts@[2]@);
    let year = match parse_u32_chars(&parts[0]) {
        Some(y) => y,
        None => return None,
    };
    let month = match parse_u32_chars(&parts[1]) {
        Some(m) => m,
        None => return None,
    };
    let day = match parse_u32_chars(&parts[2]) {
        Some(d) => d,
        None => return None,
    };
    if !(1 <= month && month <= 12) || !(1 <= day && day <= 31) {
        return None;
    }
    Some((year, month, day))
}

/// Finnish month names in the partitive (as in "9. elokuuta").
pub open spec fn fi_month(m: u32) -> Seq<char> {
    if m == 1 { "tammikuuta"@ } else if m == 2 { "helmikuuta"@ } else if m == 3 { "maaliskuuta"@ }
    else if m == 4 { "huhtikuuta"@ } else if m == 5 { "toukokuuta"@ } else if m == 6 { "kesäkuuta"@ }
    else if m == 7 { "heinäkuuta"@ } else if m == 8 { "elokuuta"@ } else if m == 9 { "syyskuuta"@ }
    else if m == 10 { "lokakuuta"@ } else if m == 11 { "marraskuuta"@ } else { "joulukuuta"@ }
}

/// English month names.
pub open spec fn en_month(m: u32) -> Seq<char> {
    if m == 1 { "January"@ } else if m == 2 { "February"@ } else if m == 3 { "March"@ }
    else if m == 4 { "April"@ } else if m == 5 { "May"@ } else if m == 6 { "June"@ }
    else if m == 7 { "July"@ } else if m == 8 { "August"@ } else if m == 9 { "September"@ }
    else if m == 10 { "October"@ } else if m == 11 { "November"@ } else { "December"@ }
}

fn month_name(m: u32, finnish: bool) -> (r: &'static str)
    ensures
        r@ == (if finnish { fi_month(m) } else { en_month(m) }),
{
    if finnish {
        if m == 1 { "tammikuuta" } else if m == 2 { "helmikuuta" } else if m == 3 { "maaliskuuta" }
        else if m == 4 { "huhtikuuta" } else if m == 5 { "toukokuuta" } else if m == 6 { "kesäkuuta" }
        else if m == 7 { "heinäkuuta" } else if m == 8 { "elokuuta" } else if m == 9 { "syyskuuta" }
        else if m == 10 { "lokakuuta" } else if m == 11 { "marraskuuta" } else { "joulukuuta" }
    } else {
        if m == 1 { "January" } else if m == 2 { "February" } else if m == 3 { "March" }
        else if m == 4 { "April" } else if m == 5 { "May" } else if m == 6 { "June" }
        else if m == 7 { "July" } else if m == 8 { "August" } else if m == 9 { "September" }
        else if m == 10 { "October" } else if m == 11 { "November" } else { "December" }
    }
}

/// The end date of a closure as displayed: `9. elokuuta` / `9 August`,
/// with the year when it differs from the reference date's year (or the
/// reference date is not a date); the text itself when it is not a date.
pub open spec fn closure_until(value: Seq<char>, reference_date: Seq<char>, language: Seq<char>) -> Seq<char> {
    match iso_date(value) {
        None => value,
        Some((year, month, day)) => {
            let include_year = match iso_date(reference_date) {
                Some((ry, _, _)) => ry != year,
                None => true,
            };
            let head = if language == "fi"@ {
                decimal(day as nat) + ". "@ + fi_month(month)
            } else {
                decimal(day as nat) + " "@ + en_month(month)
            };
            if include_year { head + " "@ + decimal(year as nat) } else { head }
        },
    }
}

/// Formats the end date of a closure for the UI language.
pub fn display_closure_until_date(value: &str, reference_date: &str, language: &str) -> (r: String)
    ensures
        r@ == closure_until(value@, reference_date@, language@),
{
    let (year, month, day) = match parse_iso_date(value) {
        None => return owned(value),
        Some(t) => t,
    };
    let include_year = match parse_iso_date(reference_date) {
        Some((reference_year, _, _)) => reference_year != year,
        None => true,
    };
    let finnish = str_eq(language, "fi");
    let mut out = u32_to_decimal(day);
    if finnish {
        extend_chars(&mut out, &str_chars(". "));
    } else {
        extend_chars(&mut out, &str_chars(" "));
    }
    extend_chars(&mut out, &str_chars(month_name(month, finnish)));
    if include_year {
        extend_chars(&mut out, &str_chars(" "));
        extend_chars(&mut out, &u32_to_decimal(year));
    }
    proof {
        let head = if language@ == "fi"@ {
            decimal(day as nat) + ". "@ + fi_month(month)
        } else {
            decimal(day as nat) + " "@ + en_month(month)
        };
        if include_year {
            assert(out@ =~= head + " "@ + decimal(year as nat));
        } else {
            assert(out@ =~= head);
        }
    }
    chars_to_string(&out)
}

/// The closure notice of a response: none unless the service is closed;
/// `Closed` / `Suljettu` without closure details; else the end date, and
/// the (normalized, non-empty) reason after `. `.
pub open spec fn notice_of(e: ClosureEnvelope, language: Seq<char>) -> Option<Seq<char>> {
    if e.service.status@ != "closed"@ {
        None
    } else {
        match e.closure {
            None => Some(if language == "fi"@ { "Suljettu"@ } else { "Closed"@ }),
            Some(c) => {
                let until = closure_until(c.ends_on@, e.date@, language);
                let base = if language == "fi"@ { "Suljettu "@ + until + " asti"@ } else { "Closed until "@ + until };
                match c.reason {
                    Some(reason) => if normalized(reason@).len() > 0 { Some(base + ". "@ + normalized(reason@)) } else { Some(base) },
                    None => Some(base),
                }
            },
        }
    }
}

/// Returns the closure notice of a response for the UI language; `None`
/// when the response could not be read (`envelope` is `None`) or the
/// restaurant is not closed.
pub fn closure_notice(envelope: Option<ClosureEnvelope>, language: &str) -> (r: Option<String>)
    ensures
        match r {
            Some(s) => envelope matches Some(e) && notice_of(e, language@) == Some(s@),
            None => match envelope { Some(e) => notice_of(e, language@) is None, None => true },
        },
{
    let e = match envelope {
        None => return None,
        Some(e) => e,
    };
    if !str_eq(e.service.status.as_str(), "closed") {
        return None;
    }
    let finnish = str_eq(language, "fi");
    let closure = match e.closure {
        None => return Some(owned(if finnish { "Suljettu" } else { "Closed" })),
        Some(c) => c,
    };
    let until = str_chars(display_closure_until_date(closure.ends_on.as_str(), e.date.as_str(), language).as_str());
    let mut out: Vec<char>;
    if finnish {
        out = str_chars("Suljettu ");
        extend_chars(&mut out, &until);
        extend_chars(&mut out, &str_chars(" asti"));
    } else {
        out = str_chars("Closed until ");
        extend_chars(&mut out, &until);
    }
    let ghost base = out@;
    if let Some(reason) = closure.reason {
        let n = normalize_chars(&str_chars(reason.as_str()));
        if n.len() > 0 {
            extend_chars(&mut out, &str_chars(". "));
            extend_chars(&mut out, &n);
            assert(out@ =~= base + ". "@ + normalized(reason@));
        }
    }
    Some(chars_to_string(&out))
}

} // verus!
