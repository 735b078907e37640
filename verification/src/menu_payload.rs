//! How a lunch API menu response becomes the menu the popup shows: general
//! offers first, then the menu lines that have dishes, in the API's sort
//! order (ties keep the payload order).

use vstd::prelude::*;
use crate::api::{
    prices_display, recipe_from_api, recipe_view, single_price_display, api_prices_display,
    ApiGroup, ApiItem, ApiMenuResponse, ApiOffer, ApiPrice,
};
use crate::app_state::{trim_ws, trim_ws_chars, url_of};
use crate::fetch::{FetchOutput, FetchOutputV};
use crate::model::{
    MenuGroup, MenuGroupPresentation, MenuGroupV, MenuPrice, MenuPriceV, PriceAudience,
    RecipeInfo, RecipeInfoV, TodayMenu, TodayMenuV,
};
use crate::normalize::{normalize_chars, normalize_text, normalized};
use crate::restaurant::{
    available_restaurants, position_in, position_of, restaurant_lookup, restaurants, str_eq, Provider, Restaurant,
};
use crate::seqs::{deep, extend_chars, join, join_chars};
use crate::text::{chars_eq, chars_to_string, owned, str_chars};
use crate::format::{decimal, u32_to_decimal};

verus! {

// ---------------------------------------------------------------- stable sort by key

/// The index of the first entry whose key is greater than `k` (the length
/// when there is none).
pub open spec fn first_greater<V>(s: Seq<(int, V)>, k: int) -> int
    decreases s.len(),
{
    if s.len() == 0 {
        0
    } else if s[0].0 > k {
        0
    } else {
        1 + first_greater(s.drop_first(), k)
    }
}

/// `e` inserted after every leading entry whose key is not greater.
pub open spec fn insert_sorted<V>(s: Seq<(int, V)>, e: (int, V)) -> Seq<(int, V)> {
    s.insert(first_greater(s, e.0), e)
}

/// The entries ordered by key, entries with equal keys in their original
/// order (what a stable sort by key gives).
pub open spec fn sort_stable<V>(s: Seq<(int, V)>) -> Seq<(int, V)>
    decreases s.len(),
{
    if s.len() == 0 {
        s
    } else {
        insert_sorted(sort_stable(s.drop_last()), s.last())
    }
}

proof fn lemma_first_greater_bounds<V>(s: Seq<(int, V)>, k: int)
    ensures
        0 <= first_greater(s, k) <= s.len(),
    decreases s.len(),
{
    if s.len() > 0 && s[0].0 <= k {
        lemma_first_greater_bounds(s.drop_first(), k);
    }
}

proof fn lemma_first_greater_at<V>(s: Seq<(int, V)>, k: int, i: int)
    requires
        0 <= i <= s.len(),
        forall|j: int| 0 <= j < i ==> (#[trigger] s[j]).0 <= k,
        i == s.len() || s[i].0 > k,
    ensures
        first_greater(s, k) == i,
    decreases i,
{
    if i > 0 {
        assert(s[0].0 <= k);
        let t = s.drop_first();
        assert forall|j: int| 0 <= j < i - 1 implies (#[trigger] t[j]).0 <= k by {
            assert(t[j] == s[j + 1]);
        }
        if i < s.len() {
            assert(t[i - 1] == s[i]);
        }
        lemma_first_greater_at(t, k, i - 1);
    }
}

/// The entries whose key is `k`, in order.
pub open spec fn with_key<V>(s: Seq<(int, V)>, k: int) -> Seq<(int, V)>
    decreases s.len(),
{
    if s.len() == 0 {
        Seq::empty()
    } else {
        let p = with_key(s.drop_last(), k);
        if s.last().0 == k { p.push(s.last()) } else { p }
    }
}

/// Keys never decrease along the sequence.
pub open spec fn keys_sorted<V>(s: Seq<(int, V)>) -> bool {
    forall|i: int, j: int| 0 <= i < j < s.len() ==> (#[trigger] s[i]).0 <= (#[trigger] s[j]).0
}

// ---------------------------------------------------------------- dishes

/// A tag list as shown: each tag normalized, empty ones dropped.
pub open spec fn kept_tags(tags: Seq<String>) -> Seq<Seq<char>>
    decreases tags.len(),
{
    if tags.len() == 0 {
        Seq::empty()
    } else {
        let p = kept_tags(tags.drop_last());
        let t = normalized(tags.last()@);
        if t.len() > 0 { p.push(t) } else { p }
    }
}

/// The line of a dish: its normalized name, ` – ` and its description when
/// that is non-empty and differs from the name, and its tags in brackets.
pub open spec fn item_component(item: ApiItem) -> Seq<char> {
    let name = normalized(item.name@);
    let description = normalized(item.description@);
    let with_description = if description.len() > 0 && description != name {
        name + " – "@ + description
    } else {
        name
    };
    let tags = kept_tags(item.tags@);
    if tags.len() > 0 { with_description + " ("@ + join(tags, ", "@) + ")"@ } else { with_description }
}

/// A dish as shown: its line and its recipe details.
pub open spec fn dish_of(item: ApiItem) -> (Seq<char>, Option<RecipeInfoV>) {
    (item_component(item), match item.recipe { Some(r) => Some(recipe_view(r)), None => None })
}

/// The dishes of a menu line that have a non-empty line, in order.
pub open spec fn group_dishes(items: Seq<ApiItem>) -> Seq<(Seq<char>, Option<RecipeInfoV>)>
    decreases items.len(),
{
    if items.len() == 0 {
        Seq::empty()
    } else {
        let p = group_dishes(items.drop_last());
        if item_component(items.last()).len() > 0 { p.push(dish_of(items.last())) } else { p }
    }
}

/// An API price as a menu price.
pub open spec fn price_view(p: ApiPrice) -> MenuPriceV {
    MenuPriceV { amount: p.amount@, audiences: p.audiences.deep_view() }
}

/// The recipe id of a dish's recipe, if it has one.
pub open spec fn recipe_id_opt(d: Option<RecipeInfoV>) -> Option<u32> {
    match d { Some(r) => Some(r.recipe_id), None => None }
}

/// A menu line as shown; none when it has no dishes.
pub open spec fn group_view(g: ApiGroup, language: Seq<char>) -> Option<MenuGroupV> {
    let dishes = group_dishes(g.items@);
    if dishes.len() == 0 {
        None
    } else {
        Some(MenuGroupV {
            name: normalized(g.title@),
            price: prices_display(g.prices@, language),
            prices: g.prices@.map_values(|p: ApiPrice| price_view(p)),
            presentation: MenuGroupPresentation::Standard,
            components: dishes.map_values(|d: (Seq<char>, Option<RecipeInfoV>)| d.0),
            component_recipe_ids: dishes.map_values(|d: (Seq<char>, Option<RecipeInfoV>)| recipe_id_opt(d.1)),
            component_recipe_details: dishes.map_values(|d: (Seq<char>, Option<RecipeInfoV>)| d.1),
        })
    }
}

/// A general offer as shown: its label, its price, and its description as
/// the one line (none when empty).
pub open spec fn offer_view(o: ApiOffer, language: Seq<char>) -> MenuGroupV {
    let description = normalized(o.description@);
    MenuGroupV {
        name: normalized(o.label@),
        price: prices_display(seq![o.price], language),
        prices: seq![price_view(o.price)],
        presentation: MenuGroupPresentation::GeneralOffer,
        components: if description.len() == 0 { Seq::empty() } else { seq![description] },
        component_recipe_ids: Seq::empty(),
        component_recipe_details: Seq::empty(),
    }
}

/// The sort key that puts general offers first.
pub open spec fn offer_key() -> int {
    -1000
}

/// The offers as keyed menu groups.
pub open spec fn offer_entries(offers: Seq<ApiOffer>, language: Seq<char>) -> Seq<(int, MenuGroupV)> {
    offers.map_values(|o: ApiOffer| (offer_key(), offer_view(o, language)))
}

/// The menu lines with dishes as keyed menu groups.
pub open spec fn group_entries(groups: Seq<ApiGroup>, language: Seq<char>) -> Seq<(int, MenuGroupV)>
    decreases groups.len(),
{
    if groups.len() == 0 {
        Seq::empty()
    } else {
        let p = group_entries(groups.drop_last(), language);
        match group_view(groups.last(), language) {
            Some(v) => p.push((groups.last().sort_order as int, v)),
            None => p,
        }
    }
}

/// The menu groups of a response, in display order.
pub open spec fn menus_of(p: ApiMenuResponse, language: Seq<char>) -> Seq<MenuGroupV> {
    sort_stable(offer_entries(p.offers@, language) + group_entries(p.groups@, language))
        .map_values(|e: (int, MenuGroupV)| e.1)
}

// ---------------------------------------------------------------- building

fn kept_tags_exec(tags: &Vec<String>) -> (r: Vec<Vec<char>>)
    ensures
        deep(r@) == kept_tags(tags@),
{
    let mut out: Vec<Vec<char>> = Vec::new();
    let mut i: usize = 0;
    while i < tags.len()
        invariant
            i <= tags.len(),
            deep(out@) == kept_tags(tags@.subrange(0, i as int)),
        decreases tags.len() - i,
    {
        let t = normalize_chars(&str_chars(tags[i].as_str()));
        let ghost prev = out@;
        proof {
            assert(tags@.subrange(0, i + 1).drop_last() =~= tags@.subrange(0, i as int));
        }
        if t.len() > 0 {
            out.push(t);
            assert(deep(out@) =~= deep(prev).push(normalized(tags@[i as int]@)));
        }
        i += 1;
    }
    assert(tags@.subrange(0, tags.len() as int) =~= tags@);
    out
}

/// The line a dish is shown as.
pub fn item_component_exec(item: &ApiItem) -> (r: Vec<char>)
    ensures
        r@ == item_component(*item),
{
    let mut component = normalize_chars(&str_chars(item.name.as_str()));
    let description = normalize_chars(&str_chars(item.description.as_str()));
    if description.len() > 0 && !chars_eq(&description, &component) {
        extend_chars(&mut component, &str_chars(" – "));
        extend_chars(&mut component, &description);
    }
    let tags = kept_tags_exec(&item.tags);
    if tags.len() > 0 {
        extend_chars(&mut component, &str_chars(" ("));
        extend_chars(&mut component, &join_chars(&tags, &str_chars(", ")));
        extend_chars(&mut component, &str_chars(")"));
    }
    component
}

fn menu_price_of(p: &ApiPrice) -> (r: MenuPrice)
    ensures
        r.deep_view() == price_view(*p),
{
    let mut audiences: Vec<PriceAudience> = Vec::new();
    let mut i: usize = 0;
    while i < p.audiences.len()
        invariant
            i <= p.audiences.len(),
            audiences@ == p.audiences@.subrange(0, i as int),
        decreases p.audiences.len() - i,
    {
        audiences.push(p.audiences[i]);
        i += 1;
        assert(audiences@ =~= p.audiences@.subrange(0, i as int));
    }
    assert(audiences@ =~= p.audiences@);
    let r = MenuPrice { amount: p.amount.clone(), audiences };
    assert(r.audiences.deep_view() =~= p.audiences.deep_view());
    r
}

fn menu_prices_of(prices: &Vec<ApiPrice>) -> (r: Vec<MenuPrice>)
    ensures
        r.deep_view() == prices@.map_values(|p: ApiPrice| price_view(p)),
{
    let mut out: Vec<MenuPrice> = Vec::new();
    let mut i: usize = 0;
    while i < prices.len()
        invariant
            i <= prices.len(),
            out.deep_view() == prices@.subrange(0, i as int).map_values(|p: ApiPrice| price_view(p)),
        decreases prices.len() - i,
    {
        let ghost prev = out.deep_view();
        let mp = menu_price_of(&prices[i]);
        let ghost mv = mp.deep_view();
        out.push(mp);
        i += 1;
        assert(out.deep_view() =~= prev.push(mv));
        assert(prices@.subrange(0, i as int) =~= prices@.subrange(0, i - 1).push(prices@[i - 1]));
        assert(out.deep_view() =~= prices@.subrange(0, i as int).map_values(|p: ApiPrice| price_view(p)));
    }
    assert(prices@.subrange(0, prices.len() as int) =~= prices@);
    out
}

/// The menu group a general offer becomes.
pub fn offer_group(offer: ApiOffer, language: &str) -> (g: MenuGroup)
    ensures
        g.deep_view() == offer_view(offer, language@),
{
    let price = single_price_display(&offer.price, language);
    let prices = vec![menu_price_of(&offer.price)];
    let description = normalize_text(offer.description.as_str());
    let components: Vec<String> = if str_chars(description.as_str()).len() == 0 { Vec::new() } else { vec![description] };
    let g = MenuGroup {
        name: normalize_text(offer.label.as_str()),
        price,
        prices,
        presentation: MenuGroupPresentation::GeneralOffer,
        components,
        component_recipe_ids: Vec::new(),
        component_recipe_details: Vec::new(),
    };
    assert(g.deep_view().prices =~= offer_view(offer, language@).prices);
    assert(g.deep_view().components =~= offer_view(offer, language@).components);
    assert(g.deep_view().component_recipe_ids =~= Seq::<Option<u32>>::empty());
    assert(g.deep_view().component_recipe_details =~= Seq::<Option<RecipeInfoV>>::empty());
    g
}

/// The menu group a menu line becomes; none when no dish has a line.
pub fn group_menu(group: ApiGroup, language: &str) -> (r: Option<MenuGroup>)
    ensures
        r.deep_view() == group_view(group, language@),
{
    let ghost g0 = group;
    let price = api_prices_display(group.prices.as_slice(), language);
    let prices = menu_prices_of(&group.prices);
    let name = normalize_text(group.title.as_str());
    let ApiGroup { title: _, prices: _, items, sort_order: _ } = group;
    let mut components: Vec<String> = Vec::new();
    let mut recipe_ids: Vec<Option<u32>> = Vec::new();
    let mut recipe_details: Vec<Option<RecipeInfo>> = Vec::new();
    let ghost all = items@;
    for item in it: items.into_iter()
        invariant
            all == g0.items@,
            it.seq() == all,
            components.deep_view() == group_dishes(all.take(it.index() as int)).map_values(|d: (Seq<char>, Option<RecipeInfoV>)| d.0),
            recipe_ids.deep_view() == group_dishes(all.take(it.index() as int)).map_values(|d: (Seq<char>, Option<RecipeInfoV>)| recipe_id_opt(d.1)),
            recipe_details.deep_view() == group_dishes(all.take(it.index() as int)).map_values(|d: (Seq<char>, Option<RecipeInfoV>)| d.1),
    {
        let ghost k = it.index();
        let ghost prev_ds = group_dishes(all.take(k as int));
        proof {
            assert(all.take(k + 1).drop_last() =~= all.take(k as int));
            assert(all.take(k + 1).last() == item);
        }
        let line = item_component_exec(&item);
        if line.len() > 0 {
            let ghost item_v = item;
            let detail: Option<RecipeInfo> = match item.recipe {
                Some(recipe) => Some(recipe_from_api(recipe)),
                None => None,
            };
            let id: Option<u32> = match &detail {
                Some(d) => Some(d.recipe_id),
                None => None,
            };
            let ghost dv = detail.deep_view();
            let ghost c0 = components.deep_view();
            let ghost i0 = recipe_ids.deep_view();
            let ghost d0 = recipe_details.deep_view();
            recipe_ids.push(id);
            recipe_details.push(detail);
            components.push(chars_to_string(&line));
            proof {
                let ds = group_dishes(all.take(k + 1));
                assert(dish_of(item_v) == (line@, dv));
                assert(ds =~= prev_ds.push((line@, dv)));
                assert(components.deep_view() =~= c0.push(line@));
                assert(recipe_ids.deep_view() =~= i0.push(recipe_id_opt(dv)));
                assert(recipe_details.deep_view() =~= d0.push(dv));
                assert(components.deep_view() =~= ds.map_values(|d: (Seq<char>, Option<RecipeInfoV>)| d.0));
                assert(recipe_ids.deep_view() =~= ds.map_values(|d: (Seq<char>, Option<RecipeInfoV>)| recipe_id_opt(d.1)));
                assert(recipe_details.deep_view() =~= ds.map_values(|d: (Seq<char>, Option<RecipeInfoV>)| d.1));
            }
        } else {
            proof {
                assert(group_dishes(all.take(k + 1)) =~= prev_ds);
            }
        }
    }
    assert(all.take(all.len() as int) =~= all);
    if components.len() == 0 {
        return None;
    }
    let g = MenuGroup {
        name,
        price,
        prices,
        presentation: MenuGroupPresentation::Standard,
        components,
        component_recipe_ids: recipe_ids,
        component_recipe_details: recipe_details,
    };
    Some(g)
}

/// The groups and their keys, as keyed view entries.
pub open spec fn keyed(keys: Seq<i32>, groups: Seq<MenuGroup>) -> Seq<(int, MenuGroupV)> {
    Seq::new(keys.len(), |i: int| (keys[i] as int, groups[i].deep_view()))
}

fn insert_entry(keys: &mut Vec<i32>, groups: &mut Vec<MenuGroup>, key: i32, group: MenuGroup)
    requires
        old(keys).len() == old(groups).len(),
    ensures
        final(keys).len() == final(groups).len(),
        keyed(final(keys)@, final(groups)@) == insert_sorted(keyed(old(keys)@, old(groups)@), (key as int, group.deep_view())),
{
    let ghost s = keyed(keys@, groups@);
    let mut i: usize = 0;
    while i < keys.len() && keys[i] <= key
        invariant
            keys.len() == groups.len(),
            i <= keys.len(),
            s == keyed(keys@, groups@),
            forall|j: int| 0 <= j < i ==> (#[trigger] s[j]).0 <= key,
        decreases keys.len() - i,
    {
        i += 1;
    }
    proof {
        lemma_first_greater_at(s, key as int, i as int);
    }
    let ghost gv = group.deep_view();
    keys.insert(i, key);
    groups.insert(i, group);
    assert(keyed(keys@, groups@) =~= s.insert(i as int, (key as int, gv)));
}

/// The menu groups of a response, in display order.
pub fn build_menus(offers: Vec<ApiOffer>, groups: Vec<ApiGroup>, language: &str) -> (r: Vec<MenuGroup>)
    ensures
        r.deep_view() == sort_stable(offer_entries(offers@, language@) + group_entries(groups@, language@))
            .map_values(|e: (int, MenuGroupV)| e.1),
{
    let mut keys: Vec<i32> = Vec::new();
    let mut menus: Vec<MenuGroup> = Vec::new();
    let ghost all_offers = offers@;
    let ghost all_groups = groups@;
    assert(offer_entries(all_offers.take(0), language@) =~= Seq::<(int, MenuGroupV)>::empty());
    for offer in it: offers.into_iter()
        invariant
            it.seq() == all_offers,
            keys.len() == menus.len(),
            keyed(keys@, menus@) == sort_stable(offer_entries(all_offers.take(it.index() as int), language@)),
    {
        let ghost k = it.index();
        let ghost before = offer_entries(all_offers.take(k as int), language@);
        proof {
            assert(offer_entries(all_offers.take(k + 1), language@) =~= before.push((offer_key(), offer_view(offer, language@))));
            assert(before.push((offer_key(), offer_view(offer, language@))).drop_last() =~= before);
        }
        let g = offer_group(offer, language);
        insert_entry(&mut keys, &mut menus, -1000, g);
    }
    let ghost offered = offer_entries(all_offers, language@);
    assert(all_offers.take(all_offers.len() as int) =~= all_offers);
    assert(offered + group_entries(all_groups.take(0), language@) =~= offered);
    for group in it: groups.into_iter()
        invariant
            it.seq() == all_groups,
            offered == offer_entries(all_offers, language@),
            keys.len() == menus.len(),
            keyed(keys@, menus@) == sort_stable(offered + group_entries(all_groups.take(it.index() as int), language@)),
    {
        let ghost k = it.index();
        let ghost before = offered + group_entries(all_groups.take(k as int), language@);
        proof {
            assert(all_groups.take(k + 1).drop_last() =~= all_groups.take(k as int));
            assert(all_groups.take(k + 1).last() == group);
        }
        let key = group.sort_order;
        match group_menu(group, language) {
            Some(g) => {
                proof {
                    let e = (key as int, g.deep_view());
                    assert(offered + group_entries(all_groups.take(k + 1), language@) =~= before.push(e));
                    assert(before.push(e).drop_last() =~= before);
                }
                insert_entry(&mut keys, &mut menus, key, g);
            },
            None => {
                proof {
                    assert(offered + group_entries(all_groups.take(k + 1), language@) =~= before);
                }
            },
        }
    }
    assert(all_groups.take(all_groups.len() as int) =~= all_groups);
    assert(menus.deep_view() =~= keyed(keys@, menus@).map_values(|e: (int, MenuGroupV)| e.1));
    menus
}

// ---------------------------------------------------------------- responses

/// The service states the client knows; any other is read as `unknown`.
pub open spec fn known_status(s: Seq<char>) -> bool {
    s == "serving"@ || s == "closed"@ || s == "noMenu"@ || s == "unknown"@
}

/// The message shown when the API has no menu to give.
pub open spec fn unavailable_message(language: Seq<char>) -> Seq<char> {
    if language == "fi"@ { "Ruokalistaa ei saatavilla"@ } else { "Menu unavailable"@ }
}

/// The restaurant's web page: the API's when it is not blank, else the
/// one the client knows (empty when none).
pub open spec fn site_url(p: ApiMenuResponse, r: Restaurant) -> Seq<char> {
    match p.restaurant.website_url {
        Some(u) => if trim_ws(u@).len() > 0 { u@ } else { url_of(r) },
        None => url_of(r),
    }
}

/// What a menu response (read from `raw`) says for restaurant `r` in a UI
/// language: an error for an unsupported version or another restaurant;
/// a failed output when the service state is unknown (or unheard of); else
/// the menu (none when closed).
pub open spec fn payload_output(raw: Seq<char>, p: ApiMenuResponse, r: Restaurant, language: Seq<char>) -> Result<FetchOutputV, Seq<char>> {
    if !(p.api_version@ == "v1"@ && p.schema_version == 1) {
        Err("unsupported Lunch API response"@)
    } else if p.restaurant.id@ != r.code@ {
        Err("Lunch API restaurant mismatch"@)
    } else {
        let status = p.service.status@;
        let name = if language == "en"@ { p.restaurant.name.en@ } else { p.restaurant.name.fi@ };
        let base = FetchOutputV {
            ok: true,
            is_stale: p.freshness.is_stale,
            error_message: Seq::empty(),
            today_menu: None,
            restaurant_name: name,
            restaurant_url: site_url(p, r),
            provider: Provider::LunchApi,
            raw_json: raw,
            payload_date: p.date@,
        };
        if !known_status(status) || status == "unknown"@ {
            Ok(FetchOutputV { ok: false, error_message: unavailable_message(language), ..base })
        } else if status == "closed"@ {
            Ok(base)
        } else {
            Ok(FetchOutputV {
                today_menu: Some(TodayMenuV {
                    date_iso: p.date@,
                    lunch_time: normalized(p.service.hours@),
                    menus: menus_of(p, language),
                }),
                ..base
            })
        }
    }
}

/// Turns a lunch API menu response into a fetch result. `parsed` is what
/// reading `raw_payload` as a response gave (its error message when it
/// could not be read).
pub fn parse_lunch_api_payload(
    raw_payload: &str,
    parsed: Result<ApiMenuResponse, String>,
    restaurant: Restaurant,
    language: &str,
) -> (r: Result<FetchOutput, String>)
    ensures
        match parsed {
            Err(e) => r matches Err(m) && m@ == e@,
            Ok(p) => match payload_output(raw_payload@, p, restaurant, language@) {
                Err(e) => r matches Err(m) && m@ == e,
                Ok(o) => r matches Ok(x) && x.deep_view() == o,
            },
        },
{
    let payload = match parsed {
        Err(e) => return Err(e),
        Ok(p) => p,
    };
    let ghost p0 = payload;
    if !(str_eq(payload.api_version.as_str(), "v1") && payload.schema_version == 1) {
        return Err(owned("unsupported Lunch API response"));
    }
    if !str_eq(payload.restaurant.id.as_str(), restaurant.code) {
        return Err(owned("Lunch API restaurant mismatch"));
    }
    let status = payload.service.status.as_str();
    let known = str_eq(status, "serving") || str_eq(status, "closed") || str_eq(status, "noMenu") || str_eq(status, "unknown");
    let unknown = !known || str_eq(status, "unknown");
    let closed = str_eq(status, "closed");
    let restaurant_name = if str_eq(language, "en") { payload.restaurant.name.en.clone() } else { payload.restaurant.name.fi.clone() };
    let restaurant_url = site_url_exec(&payload.restaurant.website_url, restaurant);
    let is_stale = payload.freshness.is_stale;
    let payload_date = payload.date.clone();
    if unknown {
        let message = if str_eq(language, "fi") { "Ruokalistaa ei saatavilla" } else { "Menu unavailable" };
        return Ok(FetchOutput {
            ok: false,
            is_stale,
            error_message: owned(message),
            today_menu: None,
            restaurant_name,
            restaurant_url,
            provider: Provider::LunchApi,
            raw_json: owned(raw_payload),
            payload_date,
        });
    }
    let today_menu = if closed {
        None
    } else {
        let lunch_time = normalize_text(payload.service.hours.as_str());
        let ApiMenuResponse { api_version: _, schema_version: _, restaurant: _, date, service: _, offers, groups, freshness: _ } = payload;
        let menus = build_menus(offers, groups, language);
        Some(TodayMenu { date_iso: date, lunch_time, menus })
    };
    let out = FetchOutput {
        ok: true,
        is_stale,
        error_message: String::new(),
        today_menu,
        restaurant_name,
        restaurant_url,
        provider: Provider::LunchApi,
        raw_json: owned(raw_payload),
        payload_date,
    };
    proof {
        if !closed {
            assert(out.deep_view().today_menu == Some(TodayMenuV {
                date_iso: p0.date@,
                lunch_time: normalized(p0.service.hours@),
                menus: menus_of(p0, language@),
            }));
        }
    }
    Ok(out)
}

fn site_url_exec(website_url: &Option<String>, restaurant: Restaurant) -> (r: String)
    ensures
        r@ == match *website_url {
            Some(u) => if trim_ws(u@).len() > 0 { u@ } else { url_of(restaurant) },
            None => url_of(restaurant),
        },
{
    if let Some(u) = website_url {
        if trim_ws_chars(&str_chars(u.as_str())).len() > 0 {
            return u.clone();
        }
    }
    match restaurant.url {
        Some(u) => owned(u),
        None => String::new(),
    }
}

/// Parses a cached lunch API response (the only provider there is).
pub fn parse_cached_payload(
    raw_payload: &str,
    parsed: Result<ApiMenuResponse, String>,
    provider: Provider,
    restaurant: Restaurant,
    language: &str,
) -> (r: Result<FetchOutput, String>)
    ensures
        match parsed {
            Err(e) => r matches Err(m) && m@ == e@,
            Ok(p) => match payload_output(raw_payload@, p, restaurant, language@) {
                Err(e) => r matches Err(m) && m@ == e,
                Ok(o) => r matches Ok(x) && x.deep_view() == o,
            },
        },
{
    parse_lunch_api_payload(raw_payload, parsed, restaurant, language)
}

/// The fetch result of a failed request: the restaurant as the client
/// knows it, the response body (if any), and the error.
pub open spec fn failed_output(r: Restaurant, raw_json: Seq<char>, error_message: Seq<char>) -> FetchOutputV {
    FetchOutputV {
        ok: false,
        is_stale: false,
        error_message,
        today_menu: None,
        restaurant_name: r.name@,
        restaurant_url: url_of(r),
        provider: Provider::LunchApi,
        raw_json,
        payload_date: Seq::empty(),
    }
}

fn failed_api_output(restaurant: Restaurant, raw_json: String, error_message: String) -> (r: FetchOutput)
    ensures
        r.deep_view() == failed_output(restaurant, raw_json@, error_message@),
{
    FetchOutput {
        ok: false,
        is_stale: false,
        error_message,
        today_menu: None,
        restaurant_name: owned(restaurant.name),
        restaurant_url: match restaurant.url {
            Some(u) => owned(u),
            None => String::new(),
        },
        provider: Provider::LunchApi,
        raw_json,
        payload_date: String::new(),
    }
}

/// The fetch result of a request that failed with `error_message`.
pub fn failed_fetch_output(restaurant: Restaurant, error_message: String) -> (r: FetchOutput)
    ensures
        r.deep_view() == failed_output(restaurant, Seq::empty(), error_message@),
{
    failed_api_output(restaurant, String::new(), error_message)
}

/// What a request to the lunch API came back with: a transport failure
/// (its message), or an HTTP status and body.
pub enum HttpReply {
    Failed(String),
    Received { status: u16, body: String },
}

/// Whether an HTTP status is a success (2xx).
pub open spec fn http_success(status: u16) -> bool {
    200 <= status <= 299
}

/// The fetch result of a menu request: a transport failure or an HTTP
/// error status gives a failed output (with the body for the latter); a
/// success is read as a menu response (`parsed` is what reading the body
/// gave), and a response that cannot be used gives a failed output with
/// the body and the reason.
pub fn lunch_api_output(
    restaurant: Restaurant,
    language: &str,
    reply: HttpReply,
    parsed: Result<ApiMenuResponse, String>,
) -> (r: FetchOutput)
    ensures
        match reply {
            HttpReply::Failed(e) => r.deep_view() == failed_output(restaurant, Seq::empty(), e@),
            HttpReply::Received { status, body } => if !http_success(status) {
                r.deep_view() == failed_output(restaurant, body@,
                    "Lunch API returned HTTP "@ + decimal(status as nat))
            } else {
                match parsed {
                    Err(e) => r.deep_view() == failed_output(restaurant, body@, e@),
                    Ok(p) => match payload_output(body@, p, restaurant, language@) {
                        Err(e) => r.deep_view() == failed_output(restaurant, body@, e),
                        Ok(o) => r.deep_view() == o,
                    },
                }
            },
        },
{
    match reply {
        HttpReply::Failed(e) => failed_api_output(restaurant, String::new(), e),
        HttpReply::Received { status, body } => {
            if !(200 <= status && status <= 299) {
                let mut message = str_chars("Lunch API returned HTTP ");
                extend_chars(&mut message, &u32_to_decimal(status as u32));
                return failed_api_output(restaurant, body, chars_to_string(&message));
            }
            match parse_lunch_api_payload(body.as_str(), parsed, restaurant, language) {
                Ok(result) => result,
                Err(e) => failed_api_output(restaurant, body, e),
            }
        },
    }
}

/// The lunch API's address.
pub open spec fn api_base() -> Seq<char> {
    "https://lunch.veeti.dev/v1"@
}

/// The address of a restaurant's menu in a language on a date.
pub fn lunch_api_menu_url(code: &str, language: &str, date: &str) -> (r: String)
    ensures
        r@ == api_base() + "/restaurants/"@ + code@ + "/menu?language="@ + language@ + "&date="@ + date@,
{
    let mut out = str_chars("https://lunch.veeti.dev/v1");
    extend_chars(&mut out, &str_chars("/restaurants/"));
    extend_chars(&mut out, &str_chars(code));
    extend_chars(&mut out, &str_chars("/menu?language="));
    extend_chars(&mut out, &str_chars(language));
    extend_chars(&mut out, &str_chars("&date="));
    extend_chars(&mut out, &str_chars(date));
    chars_to_string(&out)
}

/// The address of the daily snapshot of all menus in a language.
pub fn lunch_api_snapshot_url(language: &str, date: &str) -> (r: String)
    ensures
        r@ == api_base() + "/snapshot?language="@ + language@ + "&date="@ + date@,
{
    let mut out = str_chars("https://lunch.veeti.dev/v1");
    extend_chars(&mut out, &str_chars("/snapshot?language="));
    extend_chars(&mut out, &str_chars(language));
    extend_chars(&mut out, &str_chars("&date="));
    extend_chars(&mut out, &str_chars(date));
    chars_to_string(&out)
}

// ---------------------------------------------------------------- daily snapshot

/// One menu of a daily snapshot: the restaurant id it names (if any), its
/// text on its own (if it could be written out), and what reading that
/// text as a menu response gave.
pub struct SnapshotMenu {
    pub code: Option<String>,
    pub raw: Option<String>,
    pub parsed: Result<ApiMenuResponse, String>,
}

/// A daily snapshot of all menus.
pub struct ApiSnapshotResponse {
    pub api_version: String,
    pub schema_version: u32,
    pub requested_language: String,
    pub date: String,
    pub menus: Vec<SnapshotMenu>,
}

/// The snapshot menus read so far: the restaurant codes met, and the
/// results kept. A menu is kept when it names a known restaurant not met
/// before and reads as a usable response; a known code counts as met even
/// when its menu is not usable.
pub open spec fn snapshot_fold(menus: Seq<SnapshotMenu>, language: Seq<char>) -> (Seq<Seq<char>>, Seq<(Seq<char>, FetchOutputV)>)
    decreases menus.len(),
{
    if menus.len() == 0 {
        (Seq::empty(), Seq::empty())
    } else {
        let (seen, kept) = snapshot_fold(menus.drop_last(), language);
        let m = menus.last();
        match m.code {
            None => (seen, kept),
            Some(c) => if position_of(restaurants(true), c@) is None || seen.contains(c@) {
                (seen, kept)
            } else {
                let seen2 = seen.push(c@);
                match (m.raw, m.parsed) {
                    (Some(raw), Ok(p)) => match payload_output(raw@, p, restaurant_lookup(c@, true), language) {
                        Ok(o) => (seen2, kept.push((c@, o))),
                        Err(_) => (seen2, kept),
                    },
                    _ => (seen2, kept),
                }
            },
        }
    }
}

/// What a daily snapshot gives: an error for an unsupported version, a
/// language or date other than asked for, or no usable menu; else the
/// usable menus of known restaurants, each restaurant once, in order.
pub open spec fn snapshot_output(p: ApiSnapshotResponse, language: Seq<char>, expected_date: Seq<char>) -> Result<Seq<(Seq<char>, FetchOutputV)>, Seq<char>> {
    if !(p.api_version@ == "v1"@ && p.schema_version == 1) {
        Err("unsupported Lunch API snapshot"@)
    } else if p.requested_language@ != language {
        Err("Lunch API snapshot language mismatch"@)
    } else if p.date@ != expected_date {
        Err("Lunch API snapshot date mismatch"@)
    } else {
        let kept = snapshot_fold(p.menus@, language).1;
        if kept.len() == 0 {
            Err("Lunch API snapshot contained no supported restaurants"@)
        } else {
            Ok(kept)
        }
    }
}

fn seen_contains(seen: &Vec<Vec<char>>, code: &[char]) -> (r: bool)
    ensures
        r == deep(seen@).contains(code@),
{
    let mut i: usize = 0;
    while i < seen.len()
        invariant
            i <= seen.len(),
            forall|j: int| 0 <= j < i ==> deep(seen@)[j] != code@,
        decreases seen.len() - i,
    {
        if chars_eq(&seen[i], code) {
            assert(deep(seen@)[i as int] == code@);
            return true;
        }
        i += 1;
    }
    false
}

/// Reads a daily snapshot into one fetch result per known restaurant.
/// `parsed` is what reading the snapshot text gave.
pub fn parse_lunch_api_snapshot_payload(
    parsed: Result<ApiSnapshotResponse, String>,
    language: &str,
    expected_date: &str,
) -> (r: Result<Vec<(String, FetchOutput)>, String>)
    ensures
        match parsed {
            Err(e) => r matches Err(m) && m@ == e@,
            Ok(p) => match snapshot_output(p, language@, expected_date@) {
                Err(e) => r matches Err(m) && m@ == e,
                Ok(list) => r matches Ok(v)
                    && v@.map_values(|x: (String, FetchOutput)| (x.0@, x.1.deep_view())) == list,
            },
        },
{
    let payload = match parsed {
        Err(e) => return Err(e),
        Ok(p) => p,
    };
    if !(str_eq(payload.api_version.as_str(), "v1") && payload.schema_version == 1) {
        return Err(owned("unsupported Lunch API snapshot"));
    }
    if !str_eq(payload.requested_language.as_str(), language) {
        return Err(owned("Lunch API snapshot language mismatch"));
    }
    if !str_eq(payload.date.as_str(), expected_date) {
        return Err(owned("Lunch API snapshot date mismatch"));
    }
    let list = available_restaurants(true);
    let mut seen: Vec<Vec<char>> = Vec::new();
    let mut results: Vec<(String, FetchOutput)> = Vec::new();
    let ghost all = payload.menus@;
    let ApiSnapshotResponse { api_version: _, schema_version: _, requested_language: _, date: _, menus } = payload;
    assert(all.take(0) =~= Seq::<SnapshotMenu>::empty());
    for menu in it: menus.into_iter()
        invariant
            it.seq() == all,
            list@ == restaurants(true),
            deep(seen@) == snapshot_fold(all.take(it.index() as int), language@).0,
            results@.map_values(|x: (String, FetchOutput)| (x.0@, x.1.deep_view()))
                == snapshot_fold(all.take(it.index() as int), language@).1,
    {
        let ghost k = it.index();
        let ghost before = snapshot_fold(all.take(k as int), language@);
        let ghost rv0 = results@.map_values(|x: (String, FetchOutput)| (x.0@, x.1.deep_view()));
        let ghost sv0 = deep(seen@);
        proof {
            assert(all.take(k + 1).drop_last() =~= all.take(k as int));
            assert(all.take(k + 1).last() == menu);
        }
        let SnapshotMenu { code, raw, parsed } = menu;
        if let Some(code) = code {
            let code_chars = str_chars(code.as_str());
            proof {
                crate::restaurant::lemma_position_of(list@, code@);
            }
            if let Some(pos) = position_in(&list, code.as_str()) {
                if !seen_contains(&seen, &code_chars) {
                    seen.push(code_chars);
                    proof {
                        assert(deep(seen@) =~= sv0.push(code@));
                    }
                    let restaurant = list[pos];
                    proof {
                        assert(restaurant == restaurant_lookup(code@, true));
                    }
                    if let Some(raw) = raw {
                        if let Ok(p) = parsed {
                            if let Ok(result) = parse_lunch_api_payload(raw.as_str(), Ok(p), restaurant, language) {
                                let ghost ov = result.deep_view();
                                results.push((code, result));
                                proof {
                                    assert(results@.map_values(|x: (String, FetchOutput)| (x.0@, x.1.deep_view()))
                                        =~= rv0.push((code@, ov)));
                                }
                            }
                        }
                    }
                }
            }
        }
    }
    assert(all.take(all.len() as int) =~= all);
    if results.len() == 0 {
        return Err(owned("Lunch API snapshot contained no supported restaurants"));
    }
    Ok(results)
}

} // verus!
