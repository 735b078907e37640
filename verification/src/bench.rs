//! Workloads the benchmarks measure: parsing a provider payload, splitting
//! allergen suffixes, building the popup lines and finding favorite
//! highlights.

use vstd::prelude::*;
use crate::allergens::{component_split, split_component_suffix};
use crate::api::ApiMenuResponse;
use crate::menu_payload::{parse_cached_payload, payload_output};
use crate::model::{
    MenuGroup, MenuGroupV, MenuPriceV, NutritionalValue, NutritionalValueV, RecipeInfo, RecipeInfoV, TodayMenuV,
};
use crate::app_state::AppStateV;
use crate::model::TodayMenu;
use crate::perf::{count_snapshot_clone, wrap_add, PerfCounters};
use vstd::utf8::encode_utf8;
use crate::restaurant::{Provider, Restaurant};
use crate::app_state::AppState;
use crate::highlights::{favorite_match_ranges, favorite_ranges};
use crate::popup_lines::{build_lines, popup_lines};

verus! {

/// A recorded provider payload and what it is for.
pub struct ProviderFixture {
    pub name: &'static str,
    pub raw_payload: &'static str,
    pub provider: Provider,
    pub restaurant: Restaurant,
    pub language: &'static str,
}

/// How many component lines a menu has in all.
pub open spec fn component_total(m: Option<TodayMenuV>) -> int {
    match m {
        None => 0,
        Some(t) => lines_in(t.menus.map_values(|g: crate::model::MenuGroupV| g.components.len() as int)),
    }
}

/// The sum of some line counts.
pub open spec fn lines_in(counts: Seq<int>) -> int
    decreases counts.len(),
{
    if counts.len() == 0 { 0 } else { lines_in(counts.drop_last()) + counts.last() }
}

proof fn lemma_lines_prefix(counts: Seq<int>, i: int)
    requires
        0 <= i <= counts.len(),
        forall|j: int| 0 <= j < counts.len() ==> counts[j] >= 0,
    ensures
        lines_in(counts.subrange(0, i)) <= lines_in(counts),
        lines_in(counts.subrange(0, i)) >= 0,
    decreases counts.len() - i,
{
    let sub = counts.subrange(0, i);
    assert forall|j: int| 0 <= j < sub.len() implies sub[j] >= 0 by {
        assert(sub[j] == counts[j]);
    }
    lemma_lines_nonneg(sub);
    if i < counts.len() {
        lemma_lines_prefix(counts, i + 1);
        assert(counts.subrange(0, i + 1).drop_last() =~= counts.subrange(0, i));
    } else {
        assert(counts.subrange(0, i) =~= counts);
        lemma_lines_nonneg(counts);
    }
}

proof fn lemma_lines_nonneg(counts: Seq<int>)
    requires
        forall|j: int| 0 <= j < counts.len() ==> counts[j] >= 0,
    ensures
        lines_in(counts) >= 0,
    decreases counts.len(),
{
    if counts.len() > 0 {
        lemma_lines_nonneg(counts.drop_last());
    }
}

/// Parses a fixture (read as `parsed`) and counts its component lines.
pub fn parse_provider_fixture(fixture: &ProviderFixture, parsed: Result<ApiMenuResponse, String>) -> (r: usize)
    requires
        match parsed {
            Ok(p) => match payload_output(fixture.raw_payload@, p, fixture.restaurant, fixture.language@) {
                Ok(o) => component_total(o.today_menu) <= usize::MAX,
                Err(_) => false,
            },
            Err(_) => false,
        },
    ensures
        match parsed {
            Ok(p) => match payload_output(fixture.raw_payload@, p, fixture.restaurant, fixture.language@) {
                Ok(o) => r == component_total(o.today_menu),
                Err(_) => false,
            },
            Err(_) => false,
        },
{
    let output = match parse_cached_payload(fixture.raw_payload, parsed, fixture.provider, fixture.restaurant, fixture.language) {
        Ok(o) => o,
        Err(_) => return 0,
    };
    match &output.today_menu {
        None => 0,
        Some(menu) => {
            let ghost counts = menu.deep_view().menus.map_values(|g: crate::model::MenuGroupV| g.components.len() as int);
            let mut total: usize = 0;
            let mut i: usize = 0;
            while i < menu.menus.len()
                invariant
                    i <= menu.menus.len(),
                    counts.len() == menu.menus.len(),
                    counts == menu.deep_view().menus.map_values(|g: crate::model::MenuGroupV| g.components.len() as int),
                    lines_in(counts) <= usize::MAX,
                    total == lines_in(counts.subrange(0, i as int)),
                decreases menu.menus.len() - i,
            {
                proof {
                    assert(counts.subrange(0, i + 1).drop_last() =~= counts.subrange(0, i as int));
                    assert forall|j: int| 0 <= j < counts.len() implies counts[j] >= 0 by {}
                    lemma_lines_prefix(counts, i + 1);
                    assert(counts[i as int] == menu.menus@[i as int].components@.len());
                }
                total = total + menu.menus[i].components.len();
                i += 1;
            }
            assert(counts.subrange(0, menu.menus.len() as int) =~= counts);
            total
        },
    }
}

/// Splits a component into main text and suffix and returns their total
/// length in bytes.
pub fn bench_split_component_suffix(input: &str) -> (r: usize)
    requires
        vstd::utf8::encode_utf8(component_split(input@).0).len()
            + vstd::utf8::encode_utf8(component_split(input@).1).len() <= usize::MAX,
    ensures
        r == vstd::utf8::encode_utf8(component_split(input@).0).len()
            + vstd::utf8::encode_utf8(component_split(input@).1).len(),
{
    let (main, suffix) = split_component_suffix(input);
    main.as_str().len() + suffix.as_str().len()
}

/// How many lines the popup shows for a state.
pub fn bench_build_line_count(state: &AppState, now_ms: i64, expensive: &Vec<bool>) -> (r: usize)
    ensures
        r == popup_lines(state.deep_view(), now_ms, expensive@).len(),
{
    build_lines(state, now_ms, expensive).len()
}

/// How many favorite highlights a text gets.
pub fn bench_favorite_match_range_count(text: &str, snippets: &Vec<String>) -> (r: usize)
    ensures
        r == favorite_ranges(text@, snippets@.map_values(|s: String| s@)).len(),
{
    favorite_match_ranges(text, snippets).len()
}

// ---------------------------------------------------------------- clone estimates

/// The UTF-8 length of a text.
pub open spec fn blen(s: Seq<char>) -> int {
    encode_utf8(s).len() as int
}

/// The UTF-8 lengths of texts, added up.
pub open spec fn texts_len(ss: Seq<Seq<char>>) -> int {
    lines_in(ss.map_values(|s: Seq<char>| blen(s)))
}

/// The bytes of a recipe's nutrition names and units.
pub open spec fn nutrition_len(ns: Seq<NutritionalValueV>) -> int {
    lines_in(ns.map_values(|n: NutritionalValueV| blen(n.name) + blen(n.unit)))
}

/// The bytes of a recipe's name, ingredients, diets and nutrition texts.
pub open spec fn detail_len(d: Option<RecipeInfoV>) -> int {
    match d {
        Some(r) => blen(r.name) + blen(r.ingredients_cleaned) + blen(r.diets) + nutrition_len(r.nutritional_values),
        None => 0,
    }
}

/// The bytes of each recipe's texts.
pub open spec fn detail_lens(ds: Seq<Option<RecipeInfoV>>) -> Seq<int> {
    ds.map_values(|d: Option<RecipeInfoV>| detail_len(d))
}

/// The bytes of a menu group's texts.
pub open spec fn group_len(g: MenuGroupV) -> int {
    blen(g.name) + blen(g.price) + texts_len(g.components)
        + lines_in(g.prices.map_values(|p: MenuPriceV| blen(p.amount)))
        + lines_in(detail_lens(g.component_recipe_details))
}

/// The bytes of each menu group's texts.
pub open spec fn group_lens(gs: Seq<MenuGroupV>) -> Seq<int> {
    gs.map_values(|g: MenuGroupV| group_len(g))
}

/// The bytes of the texts a copy of the state copies.
pub open spec fn state_clone_bytes(st: AppStateV) -> int {
    blen(st.error_message) + blen(st.restaurant_name) + blen(st.restaurant_url) + blen(st.raw_payload)
        + blen(st.payload_date) + blen(st.settings.restaurant_code) + blen(st.settings.language)
        + blen(st.settings.theme) + blen(st.settings.widget_scale)
        + match st.today_menu {
            Some(m) => blen(m.date_iso) + blen(m.lunch_time) + lines_in(group_lens(m.menus)),
            None => 0,
        }
}

proof fn lemma_nonneg_terms(counts: Seq<int>)
    requires
        forall|j: int| 0 <= j < counts.len() ==> counts[j] >= 0,
    ensures
        lines_in(counts) >= 0,
        forall|i: int| 0 <= i <= counts.len() ==> #[trigger] lines_in(counts.subrange(0, i)) <= lines_in(counts),
        forall|i: int| 0 <= i < counts.len() ==> #[trigger] counts[i] <= lines_in(counts),
{
    lemma_lines_nonneg(counts);
    assert forall|i: int| 0 <= i <= counts.len() implies #[trigger] lines_in(counts.subrange(0, i)) <= lines_in(counts) by {
        lemma_lines_prefix(counts, i);
    }
    assert forall|i: int| 0 <= i < counts.len() implies #[trigger] counts[i] <= lines_in(counts) by {
        lemma_lines_prefix(counts, i);
        lemma_lines_prefix(counts, i + 1);
        assert(counts.subrange(0, i + 1).drop_last() =~= counts.subrange(0, i));
    }
}

/// Adds `n` to a running sum of the terms of `counts` up to `i`.
proof fn lemma_step(counts: Seq<int>, i: int)
    requires
        0 <= i < counts.len(),
    ensures
        lines_in(counts.subrange(0, i + 1)) == lines_in(counts.subrange(0, i)) + counts[i],
{
    assert(counts.subrange(0, i + 1).drop_last() =~= counts.subrange(0, i));
}

proof fn lemma_detail_nonneg(d: Option<RecipeInfoV>)
    ensures
        detail_len(d) >= 0,
{
    if let Some(r) = d {
        lemma_nonneg_terms(r.nutritional_values.map_values(|n: NutritionalValueV| blen(n.name) + blen(n.unit)));
    }
}

proof fn lemma_details_nonneg(ds: Seq<Option<RecipeInfoV>>)
    ensures
        forall|j: int| 0 <= j < ds.len() ==> #[trigger] detail_lens(ds)[j] >= 0,
{
    assert forall|j: int| 0 <= j < ds.len() implies #[trigger] detail_lens(ds)[j] >= 0 by {
        lemma_detail_nonneg(ds[j]);
    }
}

proof fn lemma_group_len_nonneg(g: MenuGroupV)
    ensures
        group_len(g) >= 0,
{
    lemma_nonneg_terms(g.components.map_values(|s: Seq<char>| blen(s)));
    lemma_nonneg_terms(g.prices.map_values(|p: MenuPriceV| blen(p.amount)));
    lemma_details_nonneg(g.component_recipe_details);
    lemma_nonneg_terms(detail_lens(g.component_recipe_details));
}

proof fn lemma_group_lens_nonneg(gs: Seq<MenuGroupV>)
    ensures
        forall|j: int| 0 <= j < gs.len() ==> #[trigger] group_lens(gs)[j] >= 0,
        lines_in(group_lens(gs)) >= 0,
{
    assert forall|j: int| 0 <= j < gs.len() implies #[trigger] group_lens(gs)[j] >= 0 by {
        lemma_group_len_nonneg(gs[j]);
    }
    lemma_nonneg_terms(group_lens(gs));
}

fn text_bytes(s: &String) -> (r: usize)
    ensures
        r as int == blen(s@),
{
    s.as_str().as_bytes().len()
}

fn nutrition_bytes(ns: &Vec<NutritionalValue>) -> (r: usize)
    requires
        nutrition_len(ns.deep_view()) <= usize::MAX,
    ensures
        r as int == nutrition_len(ns.deep_view()),
{
    let ghost counts = ns.deep_view().map_values(|n: NutritionalValueV| blen(n.name) + blen(n.unit));
    proof {
        lemma_nonneg_terms(counts);
    }
    let mut total: usize = 0;
    let mut i: usize = 0;
    while i < ns.len()
        invariant
            i <= ns.len(),
            counts == ns.deep_view().map_values(|n: NutritionalValueV| blen(n.name) + blen(n.unit)),
            counts.len() == ns.len(),
            lines_in(counts) <= usize::MAX,
            forall|k: int| 0 <= k <= counts.len() ==> #[trigger] lines_in(counts.subrange(0, k)) <= lines_in(counts),
            total == lines_in(counts.subrange(0, i as int)),
        decreases ns.len() - i,
    {
        proof {
            lemma_step(counts, i as int);
            assert(counts[i as int] == blen(ns@[i as int].name@) + blen(ns@[i as int].unit@));
            assert(lines_in(counts.subrange(0, i + 1)) <= lines_in(counts));
        }
        total = total + text_bytes(&ns[i].name) + text_bytes(&ns[i].unit);
        i += 1;
    }
    assert(counts.subrange(0, ns.len() as int) =~= counts);
    total
}

fn detail_bytes(d: &Option<RecipeInfo>) -> (r: usize)
    requires
        detail_len(d.deep_view()) <= usize::MAX,
    ensures
        r as int == detail_len(d.deep_view()),
{
    match d {
        Some(r) => {
            proof {
                lemma_nonneg_terms(r.nutritional_values.deep_view().map_values(|n: NutritionalValueV| blen(n.name) + blen(n.unit)));
            }
            text_bytes(&r.name) + text_bytes(&r.ingredients_cleaned) + text_bytes(&r.diets) + nutrition_bytes(&r.nutritional_values)
        },
        None => 0,
    }
}

fn group_bytes(g: &MenuGroup) -> (r: usize)
    requires
        group_len(g.deep_view()) <= usize::MAX,
    ensures
        r as int == group_len(g.deep_view()),
{
    let ghost gv = g.deep_view();
    let ghost comps = gv.components.map_values(|s: Seq<char>| blen(s));
    let ghost prices = gv.prices.map_values(|p: MenuPriceV| blen(p.amount));
    let ghost details = detail_lens(gv.component_recipe_details);
    proof {
        lemma_nonneg_terms(comps);
        lemma_nonneg_terms(prices);
        lemma_details_nonneg(gv.component_recipe_details);
        lemma_nonneg_terms(details);
    }
    let mut total: usize = text_bytes(&g.name) + text_bytes(&g.price);
    let mut i: usize = 0;
    while i < g.components.len()
        invariant
            i <= g.components.len(),
            gv == g.deep_view(),
            comps == gv.components.map_values(|s: Seq<char>| blen(s)),
            comps.len() == g.components.len(),
            group_len(gv) <= usize::MAX,
            lines_in(comps) >= 0,
            lines_in(prices) >= 0,
            lines_in(details) >= 0,
            prices == gv.prices.map_values(|p: MenuPriceV| blen(p.amount)),
            details == detail_lens(gv.component_recipe_details),
            forall|k: int| 0 <= k <= comps.len() ==> #[trigger] lines_in(comps.subrange(0, k)) <= lines_in(comps),
            total == blen(gv.name) + blen(gv.price) + lines_in(comps.subrange(0, i as int)),
        decreases g.components.len() - i,
    {
        proof {
            lemma_step(comps, i as int);
            assert(comps[i as int] == blen(g.components@[i as int]@));
            assert(lines_in(comps.subrange(0, i + 1)) <= lines_in(comps));
        }
        total = total + text_bytes(&g.components[i]);
        i += 1;
    }
    assert(comps.subrange(0, g.components.len() as int) =~= comps);
    let mut j: usize = 0;
    while j < g.prices.len()
        invariant
            j <= g.prices.len(),
            gv == g.deep_view(),
            comps == gv.components.map_values(|s: Seq<char>| blen(s)),
            prices == gv.prices.map_values(|p: MenuPriceV| blen(p.amount)),
            prices.len() == g.prices.len(),
            details == detail_lens(gv.component_recipe_details),
            group_len(gv) <= usize::MAX,
            lines_in(prices) >= 0,
            lines_in(details) >= 0,
            forall|k: int| 0 <= k <= prices.len() ==> #[trigger] lines_in(prices.subrange(0, k)) <= lines_in(prices),
            total == blen(gv.name) + blen(gv.price) + lines_in(comps) + lines_in(prices.subrange(0, j as int)),
        decreases g.prices.len() - j,
    {
        proof {
            lemma_step(prices, j as int);
            assert(prices[j as int] == blen(g.prices@[j as int].amount@));
            assert(lines_in(prices.subrange(0, j + 1)) <= lines_in(prices));
        }
        total = total + text_bytes(&g.prices[j].amount);
        j += 1;
    }
    assert(prices.subrange(0, g.prices.len() as int) =~= prices);
    let mut k: usize = 0;
    while k < g.component_recipe_details.len()
        invariant
            k <= g.component_recipe_details.len(),
            gv == g.deep_view(),
            comps == gv.components.map_values(|s: Seq<char>| blen(s)),
            prices == gv.prices.map_values(|p: MenuPriceV| blen(p.amount)),
            details == detail_lens(gv.component_recipe_details),
            details.len() == g.component_recipe_details.len(),
            group_len(gv) <= usize::MAX,
            lines_in(details) >= 0,
            forall|m: int| 0 <= m < details.len() ==> #[trigger] details[m] <= lines_in(details),
            forall|m: int| 0 <= m <= details.len() ==> #[trigger] lines_in(details.subrange(0, m)) <= lines_in(details),
            total == blen(gv.name) + blen(gv.price) + lines_in(comps) + lines_in(prices) + lines_in(details.subrange(0, k as int)),
        decreases g.component_recipe_details.len() - k,
    {
        proof {
            lemma_step(details, k as int);
            assert(details[k as int] == detail_len(g.component_recipe_details@[k as int].deep_view()));
            assert(lines_in(details.subrange(0, k + 1)) <= lines_in(details));
        }
        total = total + detail_bytes(&g.component_recipe_details[k]);
        k += 1;
    }
    assert(details.subrange(0, g.component_recipe_details.len() as int) =~= details);
    total
}

/// The bytes of the texts a copy of the state copies (the benchmark's
/// estimate of a snapshot's cost).
pub fn estimated_app_state_clone_bytes(state: &AppState) -> (r: usize)
    requires
        state_clone_bytes(state.deep_view()) <= usize::MAX,
    ensures
        r as int == state_clone_bytes(state.deep_view()),
{
    let ghost st = state.deep_view();
    proof {
        if let Some(m) = st.today_menu {
            lemma_group_lens_nonneg(m.menus);
        }
    }
    let mut total = text_bytes(&state.error_message) + text_bytes(&state.restaurant_name)
        + text_bytes(&state.restaurant_url) + text_bytes(&state.raw_payload) + text_bytes(&state.payload_date)
        + text_bytes(&state.settings.restaurant_code) + text_bytes(&state.settings.language)
        + text_bytes(&state.settings.theme) + text_bytes(&state.settings.widget_scale);
    if let Some(menu) = &state.today_menu {
        let ghost counts = group_lens(menu.deep_view().menus);
        proof {
            lemma_group_lens_nonneg(menu.deep_view().menus);
            lemma_nonneg_terms(counts);
        }
        total = total + text_bytes(&menu.date_iso) + text_bytes(&menu.lunch_time);
        let mut i: usize = 0;
        while i < menu.menus.len()
            invariant
                i <= menu.menus.len(),
                st == state.deep_view(),
                st.today_menu == Some(menu.deep_view()),
                counts == group_lens(menu.deep_view().menus),
                counts.len() == menu.menus.len(),
                state_clone_bytes(st) <= usize::MAX,
                lines_in(counts) >= 0,
                forall|m: int| 0 <= m < counts.len() ==> #[trigger] counts[m] <= lines_in(counts),
                forall|m: int| 0 <= m <= counts.len() ==> #[trigger] lines_in(counts.subrange(0, m)) <= lines_in(counts),
                total == state_clone_bytes(st) - lines_in(counts) + lines_in(counts.subrange(0, i as int)),
            decreases menu.menus.len() - i,
        {
            proof {
                lemma_step(counts, i as int);
                assert(counts[i as int] == group_len(menu.menus@[i as int].deep_view()));
                assert(lines_in(counts.subrange(0, i + 1)) <= lines_in(counts));
            }
            total = total + group_bytes(&menu.menus[i]);
            i += 1;
        }
        assert(counts.subrange(0, menu.menus.len() as int) =~= counts);
    }
    total
}

/// How many strings each recipe's texts take.
pub open spec fn detail_strings(ds: Seq<Option<RecipeInfoV>>) -> Seq<int> {
    ds.map_values(|d: Option<RecipeInfoV>| match d { Some(r) => 3 + (r.nutritional_values.len() as int) * 2, None => 0int })
}

/// How many strings each menu group takes.
pub open spec fn group_string_counts(gs: Seq<MenuGroupV>) -> Seq<int> {
    gs.map_values(|g: MenuGroupV| 2 + g.components.len() + g.prices.len() + lines_in(detail_strings(g.component_recipe_details)))
}

/// How many strings a copy of the state copies.
pub open spec fn clone_string_count(st: AppStateV) -> int {
    9 + match st.today_menu {
        Some(m) => 2 + lines_in(group_string_counts(m.menus)),
        None => 0,
    }
}

proof fn lemma_group_string_counts_nonneg(gs: Seq<MenuGroupV>)
    ensures
        forall|j: int| 0 <= j < gs.len() ==> #[trigger] group_string_counts(gs)[j] >= 0,
        lines_in(group_string_counts(gs)) >= 0,
{
    assert forall|j: int| 0 <= j < gs.len() implies #[trigger] group_string_counts(gs)[j] >= 0 by {
        lemma_nonneg_terms(detail_strings(gs[j].component_recipe_details));
    }
    lemma_nonneg_terms(group_string_counts(gs));
}

fn group_string_count(g: &MenuGroup) -> (r: usize)
    requires
        2 + g.components.len() + g.prices.len() + lines_in(detail_strings(g.deep_view().component_recipe_details)) <= usize::MAX,
    ensures
        r as int == 2 + g.components.len() + g.prices.len() + lines_in(detail_strings(g.deep_view().component_recipe_details)),
{
    let ghost counts = detail_strings(g.deep_view().component_recipe_details);
    proof {
        lemma_nonneg_terms(counts);
    }
    let mut total: usize = 2 + g.components.len() + g.prices.len();
    let mut i: usize = 0;
    while i < g.component_recipe_details.len()
        invariant
            i <= g.component_recipe_details.len(),
            counts == detail_strings(g.deep_view().component_recipe_details),
            counts.len() == g.component_recipe_details.len(),
            2 + g.components.len() + g.prices.len() + lines_in(counts) <= usize::MAX,
            forall|m: int| 0 <= m < counts.len() ==> #[trigger] counts[m] <= lines_in(counts),
            forall|m: int| 0 <= m <= counts.len() ==> #[trigger] lines_in(counts.subrange(0, m)) <= lines_in(counts),
            total == 2 + g.components.len() + g.prices.len() + lines_in(counts.subrange(0, i as int)),
        decreases g.component_recipe_details.len() - i,
    {
        proof {
            lemma_step(counts, i as int);
            assert(lines_in(counts.subrange(0, i + 1)) <= lines_in(counts));
        }
        match &g.component_recipe_details[i] {
            Some(r) => {
                assert(counts[i as int] == 3 + (r.nutritional_values@.len() as int) * 2);
                total = total + 3 + r.nutritional_values.len() * 2;
            },
            None => {},
        }
        i += 1;
    }
    assert(counts.subrange(0, g.component_recipe_details.len() as int) =~= counts);
    total
}

/// How many strings a copy of the state copies (the benchmark's estimate
/// of a snapshot's cost).
pub fn estimated_app_state_clone_strings(state: &AppState) -> (r: usize)
    requires
        clone_string_count(state.deep_view()) <= usize::MAX,
    ensures
        r as int == clone_string_count(state.deep_view()),
{
    let ghost st = state.deep_view();
    let mut total: usize = 9;
    if let Some(menu) = &state.today_menu {
        let ghost counts = group_string_counts(menu.deep_view().menus);
        proof {
            lemma_group_string_counts_nonneg(menu.deep_view().menus);
            lemma_nonneg_terms(counts);
        }
        total = total + 2;
        let mut i: usize = 0;
        while i < menu.menus.len()
            invariant
                i <= menu.menus.len(),
                st == state.deep_view(),
                st.today_menu == Some(menu.deep_view()),
                counts == group_string_counts(menu.deep_view().menus),
                counts.len() == menu.menus.len(),
                clone_string_count(st) <= usize::MAX,
                forall|m: int| 0 <= m < counts.len() ==> #[trigger] counts[m] <= lines_in(counts),
                forall|m: int| 0 <= m <= counts.len() ==> #[trigger] lines_in(counts.subrange(0, m)) <= lines_in(counts),
                total == 11 + lines_in(counts.subrange(0, i as int)),
            decreases menu.menus.len() - i,
        {
            proof {
                lemma_step(counts, i as int);
                assert(lines_in(counts.subrange(0, i + 1)) <= lines_in(counts));
                assert(counts[i as int] == 2 + menu.menus@[i as int].components@.len() + menu.menus@[i as int].prices@.len()
                    + lines_in(detail_strings(menu.menus@[i as int].deep_view().component_recipe_details)));
            }
            total = total + group_string_count(&menu.menus[i]);
            i += 1;
        }
        assert(counts.subrange(0, menu.menus.len() as int) =~= counts);
    }
    total
}

fn component_count(menu: &Option<TodayMenu>) -> (r: usize)
    requires
        component_total(menu.deep_view()) <= usize::MAX,
    ensures
        r as int == component_total(menu.deep_view()),
{
    match menu {
        None => 0,
        Some(m) => {
            let ghost counts = m.deep_view().menus.map_values(|g: MenuGroupV| g.components.len() as int);
            let mut total: usize = 0;
            let mut i: usize = 0;
            while i < m.menus.len()
                invariant
                    i <= m.menus.len(),
                    counts.len() == m.menus.len(),
                    counts == m.deep_view().menus.map_values(|g: MenuGroupV| g.components.len() as int),
                    lines_in(counts) <= usize::MAX,
                    total == lines_in(counts.subrange(0, i as int)),
                decreases m.menus.len() - i,
            {
                proof {
                    assert(counts.subrange(0, i + 1).drop_last() =~= counts.subrange(0, i as int));
                    lemma_lines_prefix(counts, i + 1);
                    assert(counts[i as int] == m.menus@[i as int].components@.len());
                }
                total = total + m.menus[i].components.len();
                i += 1;
            }
            assert(counts.subrange(0, m.menus.len() as int) =~= counts);
            total
        },
    }
}

/// Counts a snapshot copy of the state in the performance counters, copies
/// it, and returns the copy's payload length and component count.
pub fn bench_snapshot_clone(counters: &mut PerfCounters, state: &AppState) -> (r: usize)
    requires
        state_clone_bytes(state.deep_view()) <= usize::MAX,
        clone_string_count(state.deep_view()) <= usize::MAX,
        blen(state.deep_view().raw_payload) + component_total(state.deep_view().today_menu) <= usize::MAX,
    ensures
        *final(counters) == (PerfCounters {
            snapshot_cloned_bytes: wrap_add(old(counters).snapshot_cloned_bytes, state_clone_bytes(state.deep_view()) as u64),
            snapshot_cloned_strings: wrap_add(old(counters).snapshot_cloned_strings, clone_string_count(state.deep_view()) as u64),
            ..*old(counters)
        }),
        r as int == blen(state.deep_view().raw_payload) + component_total(state.deep_view().today_menu),
{
    let bytes = estimated_app_state_clone_bytes(state);
    let strings = estimated_app_state_clone_strings(state);
    count_snapshot_clone(counters, bytes, strings);
    let cloned = state.clone();
    proof {
        lemma_component_total_nonneg(cloned.deep_view().today_menu);
    }
    text_bytes(&cloned.raw_payload) + component_count(&cloned.today_menu)
}

proof fn lemma_component_total_nonneg(m: Option<TodayMenuV>)
    ensures
        component_total(m) >= 0,
{
    if let Some(t) = m {
        lemma_lines_nonneg(t.menus.map_values(|g: MenuGroupV| g.components.len() as int));
    }
}

} // verus!
