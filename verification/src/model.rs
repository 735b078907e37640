//! Shared data models used across payload parsing and popup rendering.
//!
//! Each model has a deep view (a value of plain sequences) that contracts
//! compare, and a `Clone` that provably keeps that view.

use vstd::prelude::*;

verus! {

/// Normalized menu content for the current day.
pub struct TodayMenu {
    pub date_iso: String,
    pub lunch_time: String,
    pub menus: Vec<MenuGroup>,
}

/// A rendered menu section containing a heading, optional price, and component lines.
pub struct MenuGroup {
    pub name: String,
    pub price: String,
    pub prices: Vec<MenuPrice>,
    pub presentation: MenuGroupPresentation,
    pub components: Vec<String>,
    pub component_recipe_ids: Vec<Option<u32>>,
    pub component_recipe_details: Vec<Option<RecipeInfo>>,
}

/// One price of a menu group and the audiences it applies to.
pub struct MenuPrice {
    pub amount: String,
    pub audiences: Vec<PriceAudience>,
}

/// Who a price applies to.
#[derive(Clone, Copy, Debug, PartialEq, Eq, Structural)]
pub enum PriceAudience {
    Student,
    Staff,
    Guest,
}

/// How a menu group is presented.
#[derive(Clone, Copy, Debug, PartialEq, Eq, Structural)]
pub enum MenuGroupPresentation {
    Standard,
    GeneralOffer,
}

/// Extra recipe information shown when a menu component is expanded.
/// Decimal quantities are carried as the bit patterns of the `f32` values
/// the payload held (`f32::to_bits`), so that they pass through unchanged.
pub struct RecipeInfo {
    pub recipe_id: u32,
    pub name: String,
    pub ingredients_cleaned: String,
    pub nutritional_values: Vec<NutritionalValue>,
    pub kg_co2e_per100g_bits: Option<u32>,
    pub diets: String,
}

/// One nutrition value; `amount_bits` is the bit pattern of the `f32` amount.
pub struct NutritionalValue {
    pub name: String,
    pub amount_bits: u32,
    pub unit: String,
}

// ---------------------------------------------------------------- deep views

pub struct TodayMenuV {
    pub date_iso: Seq<char>,
    pub lunch_time: Seq<char>,
    pub menus: Seq<MenuGroupV>,
}

pub struct MenuGroupV {
    pub name: Seq<char>,
    pub price: Seq<char>,
    pub prices: Seq<MenuPriceV>,
    pub presentation: MenuGroupPresentation,
    pub components: Seq<Seq<char>>,
    pub component_recipe_ids: Seq<Option<u32>>,
    pub component_recipe_details: Seq<Option<RecipeInfoV>>,
}

pub struct MenuPriceV {
    pub amount: Seq<char>,
    pub audiences: Seq<PriceAudience>,
}

pub struct RecipeInfoV {
    pub recipe_id: u32,
    pub name: Seq<char>,
    pub ingredients_cleaned: Seq<char>,
    pub nutritional_values: Seq<NutritionalValueV>,
    pub kg_co2e_per100g_bits: Option<u32>,
    pub diets: Seq<char>,
}

pub struct NutritionalValueV {
    pub name: Seq<char>,
    pub amount_bits: u32,
    pub unit: Seq<char>,
}

impl DeepView for PriceAudience {
    type V = PriceAudience;

    open spec fn deep_view(&self) -> PriceAudience {
        *self
    }
}

impl DeepView for NutritionalValue {
    type V = NutritionalValueV;

    open spec fn deep_view(&self) -> NutritionalValueV {
        NutritionalValueV { name: self.name@, amount_bits: self.amount_bits, unit: self.unit@ }
    }
}

impl DeepView for RecipeInfo {
    type V = RecipeInfoV;

    open spec fn deep_view(&self) -> RecipeInfoV {
        RecipeInfoV {
            recipe_id: self.recipe_id,
            name: self.name@,
            ingredients_cleaned: self.ingredients_cleaned@,
            nutritional_values: self.nutritional_values.deep_view(),
            kg_co2e_per100g_bits: self.kg_co2e_per100g_bits,
            diets: self.diets@,
        }
    }
}

impl DeepView for MenuPrice {
    type V = MenuPriceV;

    open spec fn deep_view(&self) -> MenuPriceV {
        MenuPriceV { amount: self.amount@, audiences: self.audiences.deep_view() }
    }
}

impl DeepView for MenuGroup {
    type V = MenuGroupV;

    open spec fn deep_view(&self) -> MenuGroupV {
        MenuGroupV {
            name: self.name@,
            price: self.price@,
            prices: self.prices.deep_view(),
            presentation: self.presentation,
            components: self.components.deep_view(),
            component_recipe_ids: self.component_recipe_ids.deep_view(),
            component_recipe_details: self.component_recipe_details.deep_view(),
        }
    }
}

impl DeepView for TodayMenu {
    type V = TodayMenuV;

    open spec fn deep_view(&self) -> TodayMenuV {
        TodayMenuV { date_iso: self.date_iso@, lunch_time: self.lunch_time@, menus: self.menus.deep_view() }
    }
}

// ---------------------------------------------------------------- clones

impl Clone for NutritionalValue {
    fn clone(&self) -> (r: Self)
        ensures
            r.deep_view() == self.deep_view(),
    {
        NutritionalValue { name: self.name.clone(), amount_bits: self.amount_bits, unit: self.unit.clone() }
    }
}

pub fn clone_nutrition(v: &Vec<NutritionalValue>) -> (r: Vec<NutritionalValue>)
    ensures
        r.deep_view() == v.deep_view(),
{
    let r = v.clone();
    assert(r.deep_view() =~= v.deep_view()) by {
        assert forall|i: int| 0 <= i < v@.len() implies r@[i].deep_view() == v@[i].deep_view() by {
            assert(cloned::<NutritionalValue>(v[i], r[i]));
        }
    }
    r
}

impl Clone for RecipeInfo {
    fn clone(&self) -> (r: Self)
        ensures
            r.deep_view() == self.deep_view(),
    {
        RecipeInfo {
            recipe_id: self.recipe_id,
            name: self.name.clone(),
            ingredients_cleaned: self.ingredients_cleaned.clone(),
            nutritional_values: clone_nutrition(&self.nutritional_values),
            kg_co2e_per100g_bits: self.kg_co2e_per100g_bits,
            diets: self.diets.clone(),
        }
    }
}

impl Clone for MenuPrice {
    fn clone(&self) -> (r: Self)
        ensures
            r.deep_view() == self.deep_view(),
    {
        let audiences = self.audiences.clone();
        assert(audiences.deep_view() =~= self.audiences.deep_view()) by {
            assert forall|i: int| 0 <= i < self.audiences@.len() implies audiences@[i] == self.audiences@[i] by {
                assert(cloned::<PriceAudience>(self.audiences[i], audiences[i]));
            }
        }
        MenuPrice { amount: self.amount.clone(), audiences }
    }
}

pub fn clone_strings(v: &Vec<String>) -> (r: Vec<String>)
    ensures
        r.deep_view() == v.deep_view(),
        r@.len() == v@.len(),
        forall|i: int| 0 <= i < v@.len() ==> r@[i]@ == v@[i]@,
{
    let r = v.clone();
    assert(r.deep_view() =~= v.deep_view()) by {
        assert forall|i: int| 0 <= i < v@.len() implies r@[i]@ == v@[i]@ by {
            assert(cloned::<String>(v[i], r[i]));
        }
    }
    r
}

fn clone_prices(v: &Vec<MenuPrice>) -> (r: Vec<MenuPrice>)
    ensures
        r.deep_view() == v.deep_view(),
{
    let r = v.clone();
    assert(r.deep_view() =~= v.deep_view()) by {
        assert forall|i: int| 0 <= i < v@.len() implies r@[i].deep_view() == v@[i].deep_view() by {
            assert(cloned::<MenuPrice>(v[i], r[i]));
        }
    }
    r
}

fn clone_ids(v: &Vec<Option<u32>>) -> (r: Vec<Option<u32>>)
    ensures
        r.deep_view() == v.deep_view(),
{
    let r = v.clone();
    assert(r.deep_view() =~= v.deep_view()) by {
        assert forall|i: int| 0 <= i < v@.len() implies r@[i].deep_view() == v@[i].deep_view() by {
            assert(cloned::<Option<u32>>(v[i], r[i]));
        }
    }
    r
}

fn clone_details(v: &Vec<Option<RecipeInfo>>) -> (r: Vec<Option<RecipeInfo>>)
    ensures
        r.deep_view() == v.deep_view(),
{
    let mut r: Vec<Option<RecipeInfo>> = Vec::new();
    let mut i: usize = 0;
    while i < v.len()
        invariant
            i <= v.len(),
            r@.len() == i,
            forall|k: int| 0 <= k < i ==> (#[trigger] r@[k]).deep_view() == v@[k].deep_view(),
        decreases v.len() - i,
    {
        let item = match &v[i] {
            Some(d) => Some(d.clone()),
            None => None,
        };
        r.push(item);
        i += 1;
    }
    assert(r.deep_view() =~= v.deep_view());
    r
}

impl Clone for MenuGroup {
    fn clone(&self) -> (r: Self)
        ensures
            r.deep_view() == self.deep_view(),
    {
        MenuGroup {
            name: self.name.clone(),
            price: self.price.clone(),
            prices: clone_prices(&self.prices),
            presentation: self.presentation,
            components: clone_strings(&self.components),
            component_recipe_ids: clone_ids(&self.component_recipe_ids),
            component_recipe_details: clone_details(&self.component_recipe_details),
        }
    }
}

fn clone_groups(v: &Vec<MenuGroup>) -> (r: Vec<MenuGroup>)
    ensures
        r.deep_view() == v.deep_view(),
{
    let mut r: Vec<MenuGroup> = Vec::new();
    let mut i: usize = 0;
    while i < v.len()
        invariant
            i <= v.len(),
            r@.len() == i,
            forall|k: int| 0 <= k < i ==> (#[trigger] r@[k]).deep_view() == v@[k].deep_view(),
        decreases v.len() - i,
    {
        r.push(v[i].clone());
        i += 1;
    }
    assert(r.deep_view() =~= v.deep_view());
    r
}

impl Clone for TodayMenu {
    fn clone(&self) -> (r: Self)
        ensures
            r.deep_view() == self.deep_view(),
    {
        TodayMenu { date_iso: self.date_iso.clone(), lunch_time: self.lunch_time.clone(), menus: clone_groups(&self.menus) }
    }
}

/// A copy of an optional menu with the same deep view.
pub fn clone_menu_option(m: &Option<TodayMenu>) -> (r: Option<TodayMenu>)
    ensures
        r.deep_view() == m.deep_view(),
{
    match m {
        Some(t) => Some(t.clone()),
        None => None,
    }
}

}
