//! Text presentation helpers for menu content: dates, labels, headings, prices.

use vstd::prelude::*;
use crate::allergens::{component_split, split_component_chars};
use crate::model::{MenuGroup, TodayMenu};
use crate::normalize::{normalize_chars, normalized};
pub use crate::normalize::{normalize_optional, normalize_text};
pub use crate::allergens::split_component_suffix;
use crate::price::{
    entries_text, entries_view, parse_compass_price_entries, price_entries, price_text,
    price_text_for_entries, tietoteknia_price_text_for_groups, tietoteknia_text, PriceGroups,
};
use crate::restaurant::{str_eq, Provider};
use crate::seqs::{deep, split_chars, split_on};
use crate::text::{chars_to_string, owned, str_chars};

verus! {

// ---------------------------------------------------------------- numbers

pub open spec fn is_digit(c: char) -> bool {
    '0' <= c && c <= '9'
}

/// The value of a string of decimal digits.
pub open spec fn digits_value(s: Seq<char>) -> int
    decreases s.len(),
{
    if s.len() == 0 {
        0
    } else {
        digits_value(s.drop_last()) * 10 + (s.last() as int - '0' as int)
    }
}

pub open spec fn all_digits(s: Seq<char>) -> bool {
    forall|i: int| 0 <= i < s.len() ==> is_digit(#[trigger] s[i])
}

/// What `str::parse::<u32>` reads: an optional `+`, then one or more
/// decimal digits whose value fits in `u32`.
pub open spec fn parse_u32(s: Seq<char>) -> Option<u32> {
    let body = if s.len() > 0 && s[0] == '+' { s.drop_first() } else { s };
    if body.len() > 0 && all_digits(body) && digits_value(body) <= u32::MAX {
        Some(digits_value(body) as u32)
    } else {
        None
    }
}

/// The decimal form of `n`, without leading zeros.
pub open spec fn decimal(n: nat) -> Seq<char>
    decreases n,
{
    if n < 10 {
        seq![((n + '0' as nat) as u32) as char]
    } else {
        decimal(n / 10).push((((n % 10) + '0' as nat) as u32) as char)
    }
}

proof fn lemma_digits_value_nonneg(s: Seq<char>)
    requires
        all_digits(s),
    ensures
        digits_value(s) >= 0,
    decreases s.len(),
{
    if s.len() > 0 {
        assert(all_digits(s.drop_last())) by {
            assert forall|i: int| 0 <= i < s.drop_last().len() implies is_digit(#[trigger] s.drop_last()[i]) by {
                assert(s.drop_last()[i] == s[i]);
            }
        }
        lemma_digits_value_nonneg(s.drop_last());
        assert(is_digit(s[s.len() - 1]));
    }
}

/// Parses a decimal `u32` the way `str::parse::<u32>` does.
pub fn parse_u32_chars(s: &[char]) -> (r: Option<u32>)
    ensures
        r == parse_u32(s@),
{
    let start: usize = if s.len() > 0 && s[0] == '+' { 1 } else { 0 };
    let ghost body = if s@.len() > 0 && s@[0] == '+' { s@.drop_first() } else { s@ };
    assert(body =~= s@.subrange(start as int, s@.len() as int));
    if start >= s.len() {
        return None;
    }
    let mut value: u64 = 0;
    let mut i = start;
    while i < s.len()
        invariant
            start <= i <= s.len(),
            body == s@.subrange(start as int, s@.len() as int),
            body == (if s@.len() > 0 && s@[0] == '+' { s@.drop_first() } else { s@ }),
            all_digits(s@.subrange(start as int, i as int)),
            value as int == digits_value(s@.subrange(start as int, i as int)),
            value <= u32::MAX,
        decreases s.len() - i,
    {
        let c = s[i];
        let ghost pre = s@.subrange(start as int, i as int);
        let ghost next = s@.subrange(start as int, i + 1);
        assert(next.drop_last() =~= pre);
        if !('0' <= c && c <= '9') {
            assert(!all_digits(body)) by {
                assert(body[i - start] == c);
            }
            return None;
        }
        let digit = (c as u32 - '0' as u32) as u64;
        let nv = value * 10 + digit;
        assert(all_digits(next)) by {
            assert forall|k: int| 0 <= k < next.len() implies is_digit(#[trigger] next[k]) by {
                if k < pre.len() {
                    assert(next[k] == pre[k]);
                }
            }
        }
        assert(next.last() == c);
        assert(digits_value(next) == digits_value(pre) * 10 + (c as int - '0' as int));
        assert(body.subrange(0, (i + 1 - start) as int) =~= next);
        if nv > 4294967295 {
            proof {
                lemma_digits_prefix_bound(body, (i + 1 - start) as int);
            }
            return None;
        }
        value = nv;
        i += 1;
    }
    assert(s@.subrange(start as int, s@.len() as int) =~= body);
    Some(value as u32)
}

proof fn lemma_digits_prefix_bound(s: Seq<char>, k: int)
    requires
        0 < k <= s.len(),
        all_digits(s.subrange(0, k)),
        digits_value(s.subrange(0, k)) > u32::MAX,
    ensures
        !(all_digits(s) && digits_value(s) <= u32::MAX),
    decreases s.len() - k,
{
    if k < s.len() && all_digits(s) {
        let a = s.subrange(0, k);
        let b = s.subrange(0, k + 1);
        assert(b.drop_last() =~= a);
        assert(is_digit(s[k]));
        assert(all_digits(b)) by {
            assert forall|j: int| 0 <= j < b.len() implies is_digit(#[trigger] b[j]) by {
                assert(b[j] == s[j]);
            }
        }
        lemma_digits_prefix_bound(s, k + 1);
    } else if k == s.len() {
        assert(s.subrange(0, k) =~= s);
    }
}

/// The decimal form of a `u32`.
pub fn u32_to_decimal(n: u32) -> (r: Vec<char>)
    ensures
        r@ == decimal(n as nat),
    decreases n,
{
    if n < 10 {
        let c = digit_char(n);
        let r = vec![c];
        assert(r@ =~= decimal(n as nat));
        r
    } else {
        let mut r = u32_to_decimal(n / 10);
        r.push(digit_char(n % 10));
        r
    }
}

fn digit_char(d: u32) -> (c: char)
    requires
        d < 10,
    ensures
        c == ((d as nat + '0' as nat) as u32) as char,
{
    match d {
        0 => '0',
        1 => '1',
        2 => '2',
        3 => '3',
        4 => '4',
        5 => '5',
        6 => '6',
        7 => '7',
        8 => '8',
        _ => '9',
    }
}

// ---------------------------------------------------------------- dates

/// The display form of an ISO date: `day.month.year` in Finnish,
/// `month/day/year` otherwise; the text itself (normalized) when it is not
/// three dash-separated parts with numeric month and day.
pub open spec fn display_date(date_iso: Seq<char>, language: Seq<char>) -> Seq<char> {
    let iso = normalized(date_iso);
    let parts = split_on(iso, '-');
    if parts.len() != 3 {
        iso
    } else {
        match (parse_u32(parts[1]), parse_u32(parts[2])) {
            (Some(month), Some(day)) => if language == "fi"@ {
                decimal(day as nat) + seq!['.'] + decimal(month as nat) + seq!['.'] + parts[0]
            } else {
                decimal(month as nat) + seq!['/'] + decimal(day as nat) + seq!['/'] + parts[0]
            },
            _ => iso,
        }
    }
}

/// Formats an ISO date for the selected UI language.
pub fn format_display_date(date_iso: &str, language: &str) -> (r: String)
    ensures
        r@ == display_date(date_iso@, language@),
{
    let iso = normalize_chars(&str_chars(date_iso));
    let parts = split_chars(&iso, '-');
    if parts.len() != 3 {
        return chars_to_string(&iso);
    }
    assert(deep(parts@)[1] == parts@[1]@ && deep(parts@)[2] == parts@[2]@ && deep(parts@)[0] == parts@[0]@);
    let month = match parse_u32_chars(&parts[1]) {
        Some(m) => m,
        None => return chars_to_string(&iso),
    };
    let day = match parse_u32_chars(&parts[2]) {
        Some(d) => d,
        None => return chars_to_string(&iso),
    };
    let mut out: Vec<char>;
    if str_eq(language, "fi") {
        out = u32_to_decimal(day);
        out.push('.');
        crate::seqs::extend_chars(&mut out, &u32_to_decimal(month));
        out.push('.');
        crate::seqs::extend_chars(&mut out, &parts[0]);
        assert(out@ =~= decimal(day as nat) + seq!['.'] + decimal(month as nat) + seq!['.'] + parts@[0]@);
    } else {
        out = u32_to_decimal(month);
        out.push('/');
        crate::seqs::extend_chars(&mut out, &u32_to_decimal(day));
        out.push('/');
        crate::seqs::extend_chars(&mut out, &parts[0]);
        assert(out@ =~= decimal(month as nat) + seq!['/'] + decimal(day as nat) + seq!['/'] + parts@[0]@);
    }
    chars_to_string(&out)
}

/// The popup line combining a menu's display date and lunch time.
pub open spec fn date_time_line(date_iso: Seq<char>, lunch_time: Seq<char>, language: Seq<char>) -> Seq<char> {
    let d = display_date(date_iso, language);
    let t = normalized(lunch_time);
    if d.len() > 0 && t.len() > 0 {
        d + seq![' '] + t
    } else if d.len() > 0 {
        d
    } else {
        t
    }
}

/// Returns the popup line that combines the menu date and lunch time.
pub fn date_and_time_line(today_menu: Option<&TodayMenu>, language: &str) -> (r: String)
    ensures
        r@ == match today_menu {
            Some(m) => date_time_line(m.date_iso@, m.lunch_time@, language@),
            None => Seq::<char>::empty(),
        },
{
    let menu = match today_menu {
        Some(m) => m,
        None => return String::new(),
    };
    let date_part = format_display_date(menu.date_iso.as_str(), language);
    let time_part = normalize_text(menu.lunch_time.as_str());
    let d = str_chars(date_part.as_str());
    let t = str_chars(time_part.as_str());
    if d.len() > 0 && t.len() > 0 {
        let mut out = d;
        out.push(' ');
        crate::seqs::extend_chars(&mut out, &t);
        chars_to_string(&out)
    } else if d.len() > 0 {
        date_part
    } else {
        time_part
    }
}

// ---------------------------------------------------------------- fixed labels

/// The localized popup label for `key`; unknown keys read as themselves.
pub open spec fn label_text(language: Seq<char>, key: Seq<char>) -> Seq<char> {
    if language == "fi"@ {
        if key == "loading"@ { "Ladataan ruokalistaa..."@ }
        else if key == "noMenu"@ { "Tälle päivälle ei ole lounaslistaa."@ }
        else if key == "stale"@ { "Päivitys epäonnistui. Näytetään viimeisin tallennettu lista."@ }
        else if key == "staleNetwork"@ { "Ei verkkoyhteyttä. Näytetään viimeisin tallennettu lista."@ }
        else if key == "fetchError"@ { "Päivitysvirhe"@ }
        else if key == "ingredients"@ { "Ainesosat"@ }
        else if key == "nutrition"@ { "Ravintoarvot"@ }
        else { key }
    } else {
        if key == "loading"@ { "Loading menu..."@ }
        else if key == "noMenu"@ { "No lunch menu available for today."@ }
        else if key == "stale"@ { "Update failed. Showing last cached menu."@ }
        else if key == "staleNetwork"@ { "Offline. Showing last cached menu."@ }
        else if key == "fetchError"@ { "Fetch error"@ }
        else if key == "ingredients"@ { "Ingredients"@ }
        else if key == "nutrition"@ { "Nutrition"@ }
        else { key }
    }
}

/// Returns a localized UI string for a small fixed set of popup labels.
pub fn text_for(language: &str, key: &str) -> (r: String)
    ensures
        r@ == label_text(language@, key@),
{
    if str_eq(language, "fi") {
        if str_eq(key, "loading") { owned("Ladataan ruokalistaa...") }
        else if str_eq(key, "noMenu") { owned("Tälle päivälle ei ole lounaslistaa.") }
        else if str_eq(key, "stale") { owned("Päivitys epäonnistui. Näytetään viimeisin tallennettu lista.") }
        else if str_eq(key, "staleNetwork") { owned("Ei verkkoyhteyttä. Näytetään viimeisin tallennettu lista.") }
        else if str_eq(key, "fetchError") { owned("Päivitysvirhe") }
        else if str_eq(key, "ingredients") { owned("Ainesosat") }
        else if str_eq(key, "nutrition") { owned("Ravintoarvot") }
        else { owned(key) }
    } else {
        if str_eq(key, "loading") { owned("Loading menu...") }
        else if str_eq(key, "noMenu") { owned("No lunch menu available for today.") }
        else if str_eq(key, "stale") { owned("Update failed. Showing last cached menu.") }
        else if str_eq(key, "staleNetwork") { owned("Offline. Showing last cached menu.") }
        else if str_eq(key, "fetchError") { owned("Fetch error") }
        else if str_eq(key, "ingredients") { owned("Ingredients") }
        else if str_eq(key, "nutrition") { owned("Nutrition") }
        else { owned(key) }
    }
}

// ---------------------------------------------------------------- headings and prices

/// Tietoteknia publishes its group names in upper case; these are the
/// display names it gets instead.
pub open spec fn display_group_name(name: Seq<char>, restaurant_code: Seq<char>) -> Seq<char> {
    let n = normalized(name);
    if restaurant_code != "0439"@ {
        n
    } else if n == "LUNCH BUFFEE"@ {
        "Main course"@
    } else if n == "PÄIVÄN SOPPA"@ {
        "Keitto"@
    } else if n == "LOUNAS BUFFA"@ {
        "Pääruoka"@
    } else if n == "JÄLKKÄRI"@ {
        "Jälkiruoka"@
    } else {
        n
    }
}

/// Cleans a menu group name for display, with restaurant-specific renames.
pub fn display_menu_group_name(name: &str, restaurant_code: &str) -> (r: String)
    ensures
        r@ == display_group_name(name@, restaurant_code@),
{
    let n = normalize_text(name);
    if !str_eq(restaurant_code, "0439") {
        return n;
    }
    if str_eq(n.as_str(), "LUNCH BUFFEE") {
        owned("Main course")
    } else if str_eq(n.as_str(), "PÄIVÄN SOPPA") {
        owned("Keitto")
    } else if str_eq(n.as_str(), "LOUNAS BUFFA") {
        owned("Pääruoka")
    } else if str_eq(n.as_str(), "JÄLKKÄRI") {
        owned("Jälkiruoka")
    } else {
        n
    }
}

/// The cleaned display title of a menu group, `"Menu"` when it has none.
pub open spec fn group_title(name: Seq<char>, restaurant_code: Seq<char>) -> Seq<char> {
    let t = display_group_name(name, restaurant_code);
    if t.len() == 0 { "Menu"@ } else { t }
}

/// Returns the cleaned display category/title for a menu group.
pub fn menu_group_title_for_restaurant(menu: &MenuGroup, restaurant_code: &str) -> (r: String)
    ensures
        r@ == group_title(menu.name@, restaurant_code@),
{
    let title = display_menu_group_name(menu.name.as_str(), restaurant_code);
    if str_chars(title.as_str()).len() == 0 {
        owned("Menu")
    } else {
        title
    }
}

/// The price text shown for a group: nothing when prices are hidden or the
/// group has none; for Compass the prices of the shown audiences (with
/// Tietoteknia's rules for unlabeled prices); else the cleaned price text.
pub open spec fn display_price(price: Seq<char>, restaurant_code: Seq<char>, provider: Provider, show_prices: bool, groups: PriceGroups) -> Seq<char> {
    let p = normalized(price);
    if !show_prices || p.len() == 0 {
        Seq::empty()
    } else if provider == Provider::Compass {
        if restaurant_code == "0439"@ {
            tietoteknia_text(price_entries(p), groups)
        } else {
            entries_text(price_entries(p), groups)
        }
    } else {
        price_text(p)
    }
}

/// Returns the filtered display price text for a menu group with restaurant-specific rules.
pub fn menu_price_for_restaurant_display(
    menu: &MenuGroup,
    restaurant_code: &str,
    provider: Provider,
    show_prices: bool,
    groups: PriceGroups,
) -> (r: String)
    ensures
        r@ == display_price(menu.price@, restaurant_code@, provider, show_prices, groups),
{
    if !show_prices {
        return String::new();
    }
    let price = normalize_chars(&str_chars(menu.price.as_str()));
    if price.len() == 0 {
        return String::new();
    }
    if provider == Provider::Compass {
        let entries = parse_compass_price_entries(&price);
        let out = if str_eq(restaurant_code, "0439") {
            tietoteknia_price_text_for_groups(&entries, groups)
        } else {
            price_text_for_entries(&entries, groups)
        };
        chars_to_string(&out)
    } else {
        chars_to_string(&crate::price::normalize_price_text(&price))
    }
}

/// The heading of a menu group: its display name (`"Menu"` when empty),
/// followed by `" - "` and the shown price text when there is one.
pub open spec fn heading(heading_name: Seq<char>, price: Seq<char>, restaurant_code: Seq<char>, provider: Provider, show_prices: bool, groups: PriceGroups) -> Seq<char> {
    let h = if heading_name.len() == 0 { "Menu"@ } else { heading_name };
    let filtered = display_price(price, restaurant_code, provider, show_prices, groups);
    if show_prices && normalized(price).len() > 0 && filtered.len() > 0 {
        h + " - "@ + filtered
    } else {
        h
    }
}

fn menu_heading_with_name(
    menu: &MenuGroup,
    heading_name: String,
    restaurant_code: &str,
    provider: Provider,
    show_prices: bool,
    groups: PriceGroups,
) -> (r: String)
    ensures
        r@ == heading(heading_name@, menu.price@, restaurant_code@, provider, show_prices, groups),
{
    let h = if str_chars(heading_name.as_str()).len() == 0 { owned("Menu") } else { heading_name };
    let price = normalize_text(menu.price.as_str());
    if show_prices && str_chars(price.as_str()).len() > 0 {
        let filtered = menu_price_for_restaurant_display(menu, restaurant_code, provider, show_prices, groups);
        if str_chars(filtered.as_str()).len() == 0 {
            h
        } else {
            let mut out = str_chars(h.as_str());
            crate::seqs::extend_chars(&mut out, &str_chars(" - "));
            crate::seqs::extend_chars(&mut out, &str_chars(filtered.as_str()));
            chars_to_string(&out)
        }
    } else {
        h
    }
}

/// Builds a rendered menu heading with restaurant-specific display cleanup.
pub fn menu_heading_for_restaurant(
    menu: &MenuGroup,
    restaurant_code: &str,
    provider: Provider,
    show_prices: bool,
    groups: PriceGroups,
) -> (r: String)
    ensures
        r@ == heading(display_group_name(menu.name@, restaurant_code@), menu.price@, restaurant_code@, provider, show_prices, groups),
{
    let name = display_menu_group_name(menu.name.as_str(), restaurant_code);
    menu_heading_with_name(menu, name, restaurant_code, provider, show_prices, groups)
}

/// Builds a rendered menu heading from the group's own name, with no
/// restaurant-specific renames.
pub fn menu_heading(menu: &MenuGroup, provider: Provider, show_prices: bool, groups: PriceGroups) -> (r: String)
    ensures
        r@ == heading(normalized(menu.name@), menu.price@, ""@, provider, show_prices, groups),
{
    let name = normalize_text(menu.name.as_str());
    menu_heading_with_name(menu, name, "", provider, show_prices, groups)
}

/// Returns the filtered display price text for a menu group.
pub fn menu_price_for_display(menu: &MenuGroup, provider: Provider, show_prices: bool, groups: PriceGroups) -> (r: String)
    ensures
        r@ == display_price(menu.price@, ""@, provider, show_prices, groups),
{
    menu_price_for_restaurant_display(menu, "", provider, show_prices, groups)
}

// ---------------------------------------------------------------- components

/// The main/suffix pairs of a group's components, skipping blank
/// components and those whose main text is empty.
pub open spec fn renderable(components: Seq<Seq<char>>) -> Seq<(Seq<char>, Seq<char>)>
    decreases components.len(),
{
    if components.len() == 0 {
        Seq::empty()
    } else {
        let p = renderable(components.drop_last());
        let c = normalized(components.last());
        let split = component_split(c);
        if c.len() == 0 || split.0.len() == 0 { p } else { p.push(split) }
    }
}

/// Converts a menu group's raw component strings into renderable main/suffix pairs.
pub fn renderable_menu_components(group: &MenuGroup) -> (r: Vec<(String, String)>)
    ensures
        r@.map_values(|x: (String, String)| (x.0@, x.1@)) == renderable(group.components@.map_values(|s: String| s@)),
{
    let ghost comps = group.components@.map_values(|s: String| s@);
    let mut out: Vec<(String, String)> = Vec::new();
    let mut i: usize = 0;
    while i < group.components.len()
        invariant
            i <= group.components.len(),
            comps == group.components@.map_values(|s: String| s@),
            out@.map_values(|x: (String, String)| (x.0@, x.1@)) == renderable(comps.subrange(0, i as int)),
        decreases group.components.len() - i,
    {
        assert(comps.subrange(0, i + 1).drop_last() =~= comps.subrange(0, i as int));
        assert(comps.subrange(0, i + 1).last() == group.components@[i as int]@);
        let component = normalize_chars(&str_chars(group.components[i].as_str()));
        if component.len() > 0 {
            let (main, suffix) = split_component_chars(&component);
            if main.len() > 0 {
                let ghost before = out@;
                let pair = (chars_to_string(&main), chars_to_string(&suffix));
                out.push(pair);
                assert(out@.map_values(|x: (String, String)| (x.0@, x.1@)) =~= before.map_values(|x: (String, String)| (x.0@, x.1@)).push((main@, suffix@)));
            }
        }
        i += 1;
    }
    assert(comps.subrange(0, group.components.len() as int) =~= comps);
    out
}

}
