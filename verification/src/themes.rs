//! User-defined custom themes: the entries of `themes.json` (hex color
//! strings) and the themes they give (colors as `0x00BBGGRR` values).

use vstd::prelude::*;
use vstd::string::StringSliceAdditionalSpecFns;
use crate::restaurant::str_eq;
use crate::seqs::trim_start_by;
use crate::text::{ascii_lower, chars_ascii_lower, chars_eq, owned, seq_ascii_lower, str_chars};

verus! {

/// JSON-level representation of one custom theme (hex color strings).
pub struct CustomThemeEntry {
    pub name: String,
    pub bg_color: String,
    pub body_text_color: String,
    pub heading_color: String,
    pub header_title_color: String,
    pub suffix_color: String,
    pub suffix_highlight_color: String,
    pub favorite_highlight_color: String,
    pub selection_bg_color: String,
    pub header_bg_color: String,
    pub button_bg_color: String,
    pub divider_color: String,
}

/// A custom theme with its colors as `0x00BBGGRR` values.
pub struct CustomThemeDef {
    pub name: String,
    pub bg_color: u32,
    pub body_text_color: u32,
    pub heading_color: u32,
    pub header_title_color: u32,
    pub suffix_color: u32,
    pub suffix_highlight_color: u32,
    pub favorite_highlight_color: u32,
    pub selection_bg_color: u32,
    pub header_bg_color: u32,
    pub button_bg_color: u32,
    pub divider_color: u32,
}

/// The value of a hexadecimal digit.
pub open spec fn hex_value(c: char) -> Option<u8> {
    if '0' <= c && c <= '9' {
        Some((c as u32 - '0' as u32) as u8)
    } else if 'a' <= c && c <= 'f' {
        Some((c as u32 - 'a' as u32 + 10) as u8)
    } else if 'A' <= c && c <= 'F' {
        Some((c as u32 - 'A' as u32 + 10) as u8)
    } else {
        None
    }
}

/// A two-character byte in base 16 as `u8::from_str_radix` reads it: two
/// hex digits, or `+` and one hex digit.
pub open spec fn hex_pair(a: char, b: char) -> Option<u8> {
    if a == '+' {
        hex_value(b)
    } else {
        match (hex_value(a), hex_value(b)) {
            (Some(x), Some(y)) => Some((x * 16 + y) as u8),
            _ => None,
        }
    }
}

/// The text without its leading `#` characters.
pub open spec fn without_hashes(s: Seq<char>) -> Seq<char> {
    trim_start_by(s, |c: char| c == '#')
}

/// The UTF-8 length of a text.
pub open spec fn byte_len(s: Seq<char>) -> int {
    vstd::utf8::encode_utf8(s).len() as int
}

/// Whether a byte offset of a text falls between two characters.
pub open spec fn at_char_boundary(s: Seq<char>, b: int) -> bool {
    exists|k: int| 0 <= k <= s.len() && #[trigger] byte_len(s.take(k)) == b
}

/// A `#rrggbb` color (any number of leading `#`) as a `0x00BBGGRR` value.
#[verifier::opaque]
pub open spec fn hex_color(s: Seq<char>) -> Option<u32> {
    let t = without_hashes(s);
    if t.len() != 6 {
        None
    } else {
        match (hex_pair(t[0], t[1]), hex_pair(t[2], t[3]), hex_pair(t[4], t[5])) {
            (Some(r), Some(g), Some(b)) => Some((r as u32 + g as u32 * 256 + b as u32 * 65536) as u32),
            _ => None,
        }
    }
}

fn hex_value_exec(c: char) -> (r: Option<u8>)
    ensures
        r == hex_value(c),
{
    if '0' <= c && c <= '9' {
        Some((c as u32 - '0' as u32) as u8)
    } else if 'a' <= c && c <= 'f' {
        Some((c as u32 - 'a' as u32 + 10) as u8)
    } else if 'A' <= c && c <= 'F' {
        Some((c as u32 - 'A' as u32 + 10) as u8)
    } else {
        None
    }
}

fn hex_pair_exec(a: char, b: char) -> (r: Option<u8>)
    ensures
        r == hex_pair(a, b),
{
    if a == '+' {
        return hex_value_exec(b);
    }
    match (hex_value_exec(a), hex_value_exec(b)) {
        (Some(x), Some(y)) => Some(x * 16 + y),
        _ => None,
    }
}

/// Parses a `#rrggbb` color. The text is sliced by bytes, so a text whose
/// bytes 2 and 4 fall inside a character (when it is six bytes long after
/// the `#`s) is left out.
pub fn parse_hex_color(hex: &str) -> (r: Option<u32>)
    requires
        sliceable(hex@),
    ensures
        r == hex_color(hex@),
{
    reveal(hex_color);
    let chars = str_chars(hex);
    let mut start: usize = 0;
    assert(chars@.subrange(0, chars.len() as int) =~= chars@);
    while start < chars.len() && chars[start] == '#'
        invariant
            start <= chars.len(),
            chars@ == hex@,
            without_hashes(chars@) == without_hashes(chars@.subrange(start as int, chars.len() as int)),
        decreases chars.len() - start,
    {
        let ghost rest = chars@.subrange(start as int, chars.len() as int);
        assert(rest.drop_first() =~= chars@.subrange(start + 1, chars.len() as int));
        start += 1;
    }
    let ghost t = chars@.subrange(start as int, chars.len() as int);
    assert(without_hashes(t) == t);
    if chars.len() - start != 6 {
        return None;
    }
    assert(t[0] == chars@[start as int] && t[1] == chars@[start + 1] && t[2] == chars@[start + 2]);
    assert(t[3] == chars@[start + 3] && t[4] == chars@[start + 4] && t[5] == chars@[start + 5]);
    let r = match hex_pair_exec(chars[start], chars[start + 1]) {
        Some(v) => v,
        None => return None,
    };
    let g = match hex_pair_exec(chars[start + 2], chars[start + 3]) {
        Some(v) => v,
        None => return None,
    };
    let b = match hex_pair_exec(chars[start + 4], chars[start + 5]) {
        Some(v) => v,
        None => return None,
    };
    Some(r as u32 + (g as u32) * 256 + (b as u32) * 65536)
}

/// The colors of an entry, each parsed, in field order.
pub open spec fn entry_colors(e: CustomThemeEntry) -> Seq<Option<u32>> {
    seq![
        hex_color(e.bg_color@), hex_color(e.body_text_color@), hex_color(e.heading_color@),
        hex_color(e.header_title_color@), hex_color(e.suffix_color@), hex_color(e.suffix_highlight_color@),
        hex_color(e.favorite_highlight_color@), hex_color(e.selection_bg_color@), hex_color(e.header_bg_color@),
        hex_color(e.button_bg_color@), hex_color(e.divider_color@),
    ]
}

/// The theme an entry describes (its name and colors); none when a color
/// does not parse.
pub open spec fn entry_theme(e: CustomThemeEntry) -> Option<(Seq<char>, Seq<u32>)> {
    let c = entry_colors(e);
    if c[0] is Some && c[1] is Some && c[2] is Some && c[3] is Some && c[4] is Some && c[5] is Some
        && c[6] is Some && c[7] is Some && c[8] is Some && c[9] is Some && c[10] is Some {
        Some((e.name@, seq![c[0]->0, c[1]->0, c[2]->0, c[3]->0, c[4]->0, c[5]->0, c[6]->0, c[7]->0, c[8]->0, c[9]->0, c[10]->0]))
    } else {
        None
    }
}

/// A theme as its name and its colors in field order.
pub open spec fn theme_view(t: CustomThemeDef) -> (Seq<char>, Seq<u32>) {
    (t.name@, seq![
        t.bg_color, t.body_text_color, t.heading_color, t.header_title_color, t.suffix_color,
        t.suffix_highlight_color, t.favorite_highlight_color, t.selection_bg_color,
        t.header_bg_color, t.button_bg_color, t.divider_color,
    ])
}

/// A color text that can be sliced by bytes without panicking.
#[verifier::opaque]
pub open spec fn sliceable(s: Seq<char>) -> bool {
    byte_len(without_hashes(s)) == 6 ==> at_char_boundary(without_hashes(s), 2) && at_char_boundary(without_hashes(s), 4)
}

/// Every color of an entry can be sliced without panicking.
pub open spec fn entry_sliceable(e: CustomThemeEntry) -> bool {
    &&& sliceable(e.bg_color@) && sliceable(e.body_text_color@) && sliceable(e.heading_color@)
    &&& sliceable(e.header_title_color@) && sliceable(e.suffix_color@) && sliceable(e.suffix_highlight_color@)
    &&& sliceable(e.favorite_highlight_color@) && sliceable(e.selection_bg_color@) && sliceable(e.header_bg_color@)
    &&& sliceable(e.button_bg_color@) && sliceable(e.divider_color@)
}

/// Whether a color text can be sliced by bytes as the theme reader slices
/// it: unless it is six bytes long after its leading `#` characters, or
/// bytes 2 and 4 fall between characters.
pub fn color_sliceable(color: &str) -> (r: bool)
    ensures
        r == sliceable(color@),
{
    reveal(sliceable);
    let chars = str_chars(color);
    let mut start: usize = 0;
    assert(chars@.subrange(0, chars.len() as int) =~= chars@);
    while start < chars.len() && chars[start] == '#'
        invariant
            start <= chars.len(),
            chars@ == color@,
            without_hashes(chars@) == without_hashes(chars@.subrange(start as int, chars.len() as int)),
        decreases chars.len() - start,
    {
        let ghost rest = chars@.subrange(start as int, chars.len() as int);
        assert(rest.drop_first() =~= chars@.subrange(start + 1, chars.len() as int));
        start += 1;
    }
    let hex = crate::seqs::slice_chars(&chars, start, chars.len());
    assert(without_hashes(hex@) == hex@);
    let text = crate::text::chars_to_string(&hex);
    let total = text.as_str().as_bytes().len();
    if total != 6 {
        return true;
    }
    let offsets = crate::text_layout::prefix_offsets(&hex, total);
    let mut at2 = false;
    let mut at4 = false;
    let mut k: usize = 0;
    while k < offsets.len()
        invariant
            k <= hex.len() + 1,
            offsets@.len() == hex@.len() + 1,
            forall|q: int| 0 <= q <= hex@.len() ==> #[trigger] offsets@[q] as int == byte_len(hex@.take(q)),
            at2 <==> exists|q: int| 0 <= q < k && #[trigger] byte_len(hex@.take(q)) == 2,
            at4 <==> exists|q: int| 0 <= q < k && #[trigger] byte_len(hex@.take(q)) == 4,
        decreases hex.len() + 1 - k,
    {
        assert(offsets@[k as int] as int == byte_len(hex@.take(k as int)));
        if offsets[k] == 2 {
            at2 = true;
        }
        if offsets[k] == 4 {
            at4 = true;
        }
        k += 1;
    }
    at2 && at4
}

/// Whether every color of an entry can be sliced as the theme reader
/// slices it.
pub fn entry_colors_sliceable(entry: &CustomThemeEntry) -> (r: bool)
    ensures
        r == entry_sliceable(*entry),
{
    color_sliceable(entry.bg_color.as_str()) && color_sliceable(entry.body_text_color.as_str())
        && color_sliceable(entry.heading_color.as_str()) && color_sliceable(entry.header_title_color.as_str())
        && color_sliceable(entry.suffix_color.as_str()) && color_sliceable(entry.suffix_highlight_color.as_str())
        && color_sliceable(entry.favorite_highlight_color.as_str()) && color_sliceable(entry.selection_bg_color.as_str())
        && color_sliceable(entry.header_bg_color.as_str()) && color_sliceable(entry.button_bg_color.as_str())
        && color_sliceable(entry.divider_color.as_str())
}

/// The theme an entry describes, if all its colors parse.
pub fn parse_entry(entry: &CustomThemeEntry) -> (r: Option<CustomThemeDef>)
    requires
        entry_sliceable(*entry),
    ensures
        match r {
            Some(t) => entry_theme(*entry) == Some(theme_view(t)),
            None => entry_theme(*entry) is None,
        },
{
    let bg = parse_hex_color(entry.bg_color.as_str());
    let body = parse_hex_color(entry.body_text_color.as_str());
    let heading = parse_hex_color(entry.heading_color.as_str());
    let title = parse_hex_color(entry.header_title_color.as_str());
    let suffix = parse_hex_color(entry.suffix_color.as_str());
    let suffix_hl = parse_hex_color(entry.suffix_highlight_color.as_str());
    let favorite = parse_hex_color(entry.favorite_highlight_color.as_str());
    let selection = parse_hex_color(entry.selection_bg_color.as_str());
    let header_bg = parse_hex_color(entry.header_bg_color.as_str());
    let button = parse_hex_color(entry.button_bg_color.as_str());
    let divider = parse_hex_color(entry.divider_color.as_str());
    match (bg, body, heading, title, suffix, suffix_hl, favorite, selection, header_bg, button, divider) {
        (Some(a0), Some(a1), Some(a2), Some(a3), Some(a4), Some(a5), Some(a6), Some(a7), Some(a8), Some(a9), Some(a10)) => {
            let t = CustomThemeDef {
                name: entry.name.clone(),
                bg_color: a0,
                body_text_color: a1,
                heading_color: a2,
                header_title_color: a3,
                suffix_color: a4,
                suffix_highlight_color: a5,
                favorite_highlight_color: a6,
                selection_bg_color: a7,
                header_bg_color: a8,
                button_bg_color: a9,
                divider_color: a10,
            };
            assert(entry_theme(*entry) == Some(theme_view(t)));
            Some(t)
        },
        _ => {
            None
        },
    }
}

/// The themes of the entries whose colors all parse, in order.
pub open spec fn themes_of(entries: Seq<CustomThemeEntry>) -> Seq<(Seq<char>, Seq<u32>)>
    decreases entries.len(),
{
    if entries.len() == 0 {
        Seq::empty()
    } else {
        let p = themes_of(entries.drop_last());
        match entry_theme(entries.last()) {
            Some(t) => p.push(t),
            None => p,
        }
    }
}

/// The themes of the entries whose colors all parse, in order.
pub fn themes_from_entries(entries: &Vec<CustomThemeEntry>) -> (r: Vec<CustomThemeDef>)
    requires
        forall|i: int| 0 <= i < entries@.len() ==> entry_sliceable(#[trigger] entries@[i]),
    ensures
        r@.map_values(|t: CustomThemeDef| theme_view(t)) == themes_of(entries@),
{
    let mut out: Vec<CustomThemeDef> = Vec::new();
    let mut i: usize = 0;
    while i < entries.len()
        invariant
            i <= entries.len(),
            forall|j: int| 0 <= j < entries@.len() ==> entry_sliceable(#[trigger] entries@[j]),
            out@.map_values(|t: CustomThemeDef| theme_view(t)) == themes_of(entries@.subrange(0, i as int)),
        decreases entries.len() - i,
    {
        proof {
            assert(entries@.subrange(0, i + 1).drop_last() =~= entries@.subrange(0, i as int));
            assert(entries@.subrange(0, i + 1).last() == entries@[i as int]);
        }
        let ghost prev = out@.map_values(|t: CustomThemeDef| theme_view(t));
        if let Some(t) = parse_entry(&entries[i]) {
            let ghost tv = theme_view(t);
            out.push(t);
            assert(out@.map_values(|t: CustomThemeDef| theme_view(t)) =~= prev.push(tv));
        }
        i += 1;
    }
    assert(entries@.subrange(0, entries.len() as int) =~= entries@);
    out
}

/// The theme file written when there is none: one example theme.
pub fn default_themes_json() -> (r: Vec<CustomThemeEntry>)
    ensures
        r@.len() == 1,
        r@[0].name@ == "Custom1"@,
{
    vec![CustomThemeEntry {
        name: owned("Custom1"),
        bg_color: owned("#1a1a2e"),
        body_text_color: owned("#e0e0e0"),
        heading_color: owned("#e94560"),
        header_title_color: owned("#ffffff"),
        suffix_color: owned("#7a7a9e"),
        suffix_highlight_color: owned("#e94560"),
        favorite_highlight_color: owned("#f5c518"),
        selection_bg_color: owned("#16213e"),
        header_bg_color: owned("#0f3460"),
        button_bg_color: owned("#16213e"),
        divider_color: owned("#533483"),
    }]
}

/// The index of the first theme whose name equals `name` ignoring ASCII case.
pub open spec fn theme_position(themes: Seq<CustomThemeDef>, name: Seq<char>) -> Option<int>
    decreases themes.len(),
{
    if themes.len() == 0 {
        None
    } else {
        match theme_position(themes.drop_last(), name) {
            Some(i) => Some(i),
            None => if seq_ascii_lower(themes.last().name@) == seq_ascii_lower(name) {
                Some(themes.len() - 1)
            } else {
                None
            },
        }
    }
}

fn copy_theme(t: &CustomThemeDef) -> (r: CustomThemeDef)
    ensures
        theme_view(r) == theme_view(*t),
{
    CustomThemeDef {
        name: t.name.clone(),
        bg_color: t.bg_color,
        body_text_color: t.body_text_color,
        heading_color: t.heading_color,
        header_title_color: t.header_title_color,
        suffix_color: t.suffix_color,
        suffix_highlight_color: t.suffix_highlight_color,
        favorite_highlight_color: t.favorite_highlight_color,
        selection_bg_color: t.selection_bg_color,
        header_bg_color: t.header_bg_color,
        button_bg_color: t.button_bg_color,
        divider_color: t.divider_color,
    }
}

/// Looks up a custom theme by name, ignoring ASCII case; the first match wins.
pub fn find_custom_theme(themes: &Vec<CustomThemeDef>, name: &str) -> (r: Option<CustomThemeDef>)
    ensures
        match theme_position(themes@, name@) {
            Some(i) => r matches Some(t) && theme_view(t) == theme_view(themes@[i]),
            None => r is None,
        },
{
    let lower = chars_ascii_lower(&str_chars(name));
    let mut i: usize = 0;
    while i < themes.len()
        invariant
            i <= themes.len(),
            lower@ == seq_ascii_lower(name@),
            theme_position(themes@.subrange(0, i as int), name@) is None,
        decreases themes.len() - i,
    {
        proof {
            assert(themes@.subrange(0, i + 1).drop_last() =~= themes@.subrange(0, i as int));
            assert(themes@.subrange(0, i + 1).last() == themes@[i as int]);
        }
        let candidate = chars_ascii_lower(&str_chars(themes[i].name.as_str()));
        if chars_eq(&candidate, &lower) {
            proof {
                lemma_theme_position_extend(themes@, i as int + 1, name@);
            }
            return Some(copy_theme(&themes[i]));
        }
        i += 1;
    }
    assert(themes@.subrange(0, themes.len() as int) =~= themes@);
    None
}

proof fn lemma_theme_position_extend(themes: Seq<CustomThemeDef>, k: int, name: Seq<char>)
    requires
        1 <= k <= themes.len(),
        theme_position(themes.subrange(0, k - 1), name) is None,
        seq_ascii_lower(themes[k - 1].name@) == seq_ascii_lower(name),
    ensures
        theme_position(themes, name) == Some(k - 1),
    decreases themes.len() - k,
{
    assert(themes.subrange(0, k).drop_last() =~= themes.subrange(0, k - 1));
    assert(themes.subrange(0, k).last() == themes[k - 1]);
    if k == themes.len() {
        assert(themes.subrange(0, k) =~= themes);
    } else {
        lemma_theme_position_found(themes, k + 1, name, k - 1);
    }
}

proof fn lemma_theme_position_found(themes: Seq<CustomThemeDef>, k: int, name: Seq<char>, p: int)
    requires
        1 <= k <= themes.len(),
        theme_position(themes.subrange(0, k - 1), name) == Some(p),
    ensures
        theme_position(themes, name) == Some(p),
    decreases themes.len() - k,
{
    assert(themes.subrange(0, k).drop_last() =~= themes.subrange(0, k - 1));
    if k == themes.len() {
        assert(themes.subrange(0, k) =~= themes);
    } else {
        lemma_theme_position_found(themes, k + 1, name, p);
    }
}

// ---------------------------------------------------------------- built-in palettes

/// The colors of a popup theme, as `0x00BBGGRR` values.
#[derive(Clone, Copy, Debug, PartialEq, Eq, Structural)]
pub struct ThemePalette {
    pub bg_color: u32,
    pub body_text_color: u32,
    pub heading_color: u32,
    pub header_title_color: u32,
    pub suffix_color: u32,
    pub suffix_highlight_color: u32,
    pub favorite_highlight_color: u32,
    pub selection_bg_color: u32,
    pub header_bg_color: u32,
    pub button_bg_color: u32,
    pub divider_color: u32,
}

/// The `0x00BBGGRR` value of a red, green and blue channel.
pub open spec fn rgb_value(r: u8, g: u8, b: u8) -> u32 {
    (r as int + 256 * (g as int) + 65536 * (b as int)) as u32
}

/// The `0x00BBGGRR` value of a red, green and blue channel.
pub fn rgb(r: u8, g: u8, b: u8) -> (c: u32)
    ensures
        c == rgb_value(r, g, b),
{
    let r32 = r as u32;
    let g32 = g as u32;
    let b32 = b as u32;
    assert(r32 | (g32 << 8u32) | (b32 << 16u32) == r32 + 256 * g32 + 65536 * b32) by (bit_vector)
        requires
            r32 < 256,
            g32 < 256,
            b32 < 256,
    ;
    r32 | (g32 << 8u32) | (b32 << 16u32)
}

/// The red, green and blue channels of a `0x00BBGGRR` value.
pub fn color_channels(color: u32) -> (r: (u8, u8, u8))
    ensures
        r.0 as int == color % 256,
        r.1 as int == (color / 256) % 256,
        r.2 as int == (color / 65536) % 256,
{
    assert(color & 0xFF == color % 256) by (bit_vector);
    assert((color >> 8u32) & 0xFF == (color / 256) % 256) by (bit_vector);
    assert((color >> 16u32) & 0xFF == (color / 65536) % 256) by (bit_vector);
    ((color & 0xFF) as u8, ((color >> 8u32) & 0xFF) as u8, ((color >> 16u32) & 0xFF) as u8)
}

/// The built-in palette of a theme: light, blue, green, the two teletext
/// themes, and dark for any other name.
pub open spec fn palette_of(theme: Seq<char>) -> ThemePalette {
    if theme == "light"@ {
        ThemePalette {
            bg_color: 0x00FFFFFF,
            body_text_color: 0x00000000,
            heading_color: 0x00000000,
            header_title_color: 0x00000000,
            suffix_color: 0x00808080,
            suffix_highlight_color: 0x00808080,
            favorite_highlight_color: 0x00996600,
            selection_bg_color: 0x00CDEBFF,
            header_bg_color: 0x00F3F3F3,
            button_bg_color: 0x00DDDDDD,
            divider_color: 0x00C9C9C9,
        }
    } else if theme == "blue"@ {
        ThemePalette {
            bg_color: 0x00562401,
            body_text_color: 0x00FFFFFF,
            heading_color: 0x00FFFFFF,
            header_title_color: 0x00FFFFFF,
            suffix_color: 0x00E7C7A7,
            suffix_highlight_color: 0x00E7C7A7,
            favorite_highlight_color: 0x0000D6FF,
            selection_bg_color: 0x003E2B1A,
            header_bg_color: 0x00733809,
            button_bg_color: 0x00804A1A,
            divider_color: 0x00834D1F,
        }
    } else if theme == "green"@ {
        ThemePalette {
            bg_color: 0x00000000,
            body_text_color: 0x0000D000,
            heading_color: 0x0000D000,
            header_title_color: 0x0000D000,
            suffix_color: 0x00009000,
            suffix_highlight_color: 0x0000D000,
            favorite_highlight_color: 0x0000FFFF,
            selection_bg_color: 0x001A2F1A,
            header_bg_color: 0x000B1A0B,
            button_bg_color: 0x00142D14,
            divider_color: 0x00142D14,
        }
    } else if theme == "teletext1"@ {
        ThemePalette {
            bg_color: rgb_value(0, 0, 0),
            body_text_color: rgb_value(255, 255, 255),
            heading_color: rgb_value(0, 255, 255),
            header_title_color: rgb_value(255, 255, 0),
            suffix_color: rgb_value(0, 255, 0),
            suffix_highlight_color: rgb_value(255, 0, 255),
            favorite_highlight_color: rgb_value(255, 255, 0),
            selection_bg_color: rgb_value(0, 0, 180),
            header_bg_color: rgb_value(0, 0, 180),
            button_bg_color: rgb_value(0, 0, 140),
            divider_color: rgb_value(255, 0, 0),
        }
    } else if theme == "teletext2"@ {
        ThemePalette {
            bg_color: rgb_value(0, 0, 0),
            body_text_color: rgb_value(225, 255, 225),
            heading_color: rgb_value(255, 0, 255),
            header_title_color: rgb_value(0, 96, 255),
            suffix_color: rgb_value(0, 255, 150),
            suffix_highlight_color: rgb_value(255, 255, 0),
            favorite_highlight_color: rgb_value(0, 255, 255),
            selection_bg_color: rgb_value(0, 96, 255),
            header_bg_color: rgb_value(0, 215, 0),
            button_bg_color: rgb_value(0, 145, 0),
            divider_color: rgb_value(255, 0, 255),
        }
    } else {
        ThemePalette {
            bg_color: 0x00000000,
            body_text_color: 0x00FFFFFF,
            heading_color: 0x00FFFFFF,
            header_title_color: 0x00FFFFFF,
            suffix_color: 0x00B0B0B0,
            suffix_highlight_color: 0x00B0B0B0,
            favorite_highlight_color: 0x0000D6FF,
            selection_bg_color: 0x00303030,
            header_bg_color: 0x00101010,
            button_bg_color: 0x00202020,
            divider_color: 0x00202020,
        }
    }
}

/// The built-in palette of a theme.
pub fn theme_palette(theme: &str) -> (r: ThemePalette)
    ensures
        r == palette_of(theme@),
{
    if str_eq(theme, "light") {
        ThemePalette {
            bg_color: 0x00FFFFFF,
            body_text_color: 0x00000000,
            heading_color: 0x00000000,
            header_title_color: 0x00000000,
            suffix_color: 0x00808080,
            suffix_highlight_color: 0x00808080,
            favorite_highlight_color: 0x00996600,
            selection_bg_color: 0x00CDEBFF,
            header_bg_color: 0x00F3F3F3,
            button_bg_color: 0x00DDDDDD,
            divider_color: 0x00C9C9C9,
        }
    } else if str_eq(theme, "blue") {
        ThemePalette {
            bg_color: 0x00562401,
            body_text_color: 0x00FFFFFF,
            heading_color: 0x00FFFFFF,
            header_title_color: 0x00FFFFFF,
            suffix_color: 0x00E7C7A7,
            suffix_highlight_color: 0x00E7C7A7,
            favorite_highlight_color: 0x0000D6FF,
            selection_bg_color: 0x003E2B1A,
            header_bg_color: 0x00733809,
            button_bg_color: 0x00804A1A,
            divider_color: 0x00834D1F,
        }
    } else if str_eq(theme, "green") {
        ThemePalette {
            bg_color: 0x00000000,
            body_text_color: 0x0000D000,
            heading_color: 0x0000D000,
            header_title_color: 0x0000D000,
            suffix_color: 0x00009000,
            suffix_highlight_color: 0x0000D000,
            favorite_highlight_color: 0x0000FFFF,
            selection_bg_color: 0x001A2F1A,
            header_bg_color: 0x000B1A0B,
            button_bg_color: 0x00142D14,
            divider_color: 0x00142D14,
        }
    } else if str_eq(theme, "teletext1") {
        ThemePalette {
            bg_color: rgb(0, 0, 0),
            body_text_color: rgb(255, 255, 255),
            heading_color: rgb(0, 255, 255),
            header_title_color: rgb(255, 255, 0),
            suffix_color: rgb(0, 255, 0),
            suffix_highlight_color: rgb(255, 0, 255),
            favorite_highlight_color: rgb(255, 255, 0),
            selection_bg_color: rgb(0, 0, 180),
            header_bg_color: rgb(0, 0, 180),
            button_bg_color: rgb(0, 0, 140),
            divider_color: rgb(255, 0, 0),
        }
    } else if str_eq(theme, "teletext2") {
        ThemePalette {
            bg_color: rgb(0, 0, 0),
            body_text_color: rgb(225, 255, 225),
            heading_color: rgb(255, 0, 255),
            header_title_color: rgb(0, 96, 255),
            suffix_color: rgb(0, 255, 150),
            suffix_highlight_color: rgb(255, 255, 0),
            favorite_highlight_color: rgb(0, 255, 255),
            selection_bg_color: rgb(0, 96, 255),
            header_bg_color: rgb(0, 215, 0),
            button_bg_color: rgb(0, 145, 0),
            divider_color: rgb(255, 0, 255),
        }
    } else {
        ThemePalette {
            bg_color: 0x00000000,
            body_text_color: 0x00FFFFFF,
            heading_color: 0x00FFFFFF,
            header_title_color: 0x00FFFFFF,
            suffix_color: 0x00B0B0B0,
            suffix_highlight_color: 0x00B0B0B0,
            favorite_highlight_color: 0x0000D6FF,
            selection_bg_color: 0x00303030,
            header_bg_color: 0x00101010,
            button_bg_color: 0x00202020,
            divider_color: 0x00202020,
        }
    }
}

/// The font family a theme is drawn in: Consolas for the teletext themes,
/// Segoe UI otherwise.
pub fn theme_font_family(theme: &str) -> (r: &'static str)
    ensures
        r@ == (if theme@ == "teletext1"@ || theme@ == "teletext2"@ { "Consolas"@ } else { "Segoe UI"@ }),
{
    if str_eq(theme, "teletext1") || str_eq(theme, "teletext2") {
        "Consolas"
    } else {
        "Segoe UI"
    }
}

/// An ASCII letter lowercased; any other byte as it is.
pub open spec fn lower_byte(b: u8) -> u8 {
    if 65 <= b <= 90 { (b + 32) as u8 } else { b }
}

/// The font cache key of a theme name: its first 16 bytes, ASCII letters
/// lowercased, padded with zeros.
pub fn theme_key(theme: &str) -> (r: [u8; 16])
    ensures
        forall|i: int| 0 <= i < 16 ==> #[trigger] r@[i] == if i < theme.spec_bytes().len() {
            lower_byte(theme.spec_bytes()[i])
        } else {
            0u8
        },
{
    let bytes = theme.as_bytes();
    let mut out = [0u8; 16];
    let mut i: usize = 0;
    while i < 16 && i < bytes.len()
        invariant
            i <= 16,
            i <= bytes@.len(),
            bytes@ == theme.spec_bytes(),
            forall|k: int| 0 <= k < i ==> #[trigger] out@[k] == lower_byte(bytes@[k]),
            forall|k: int| i <= k < 16 ==> #[trigger] out@[k] == 0u8,
        decreases 16 - i,
    {
        let b = bytes[i];
        let lowered = if 65 <= b && b <= 90 { b + 32 } else { b };
        out[i] = lowered;
        i += 1;
    }
    out
}

/// `n * numerator / denominator` in 64-bit arithmetic, rounded toward
/// zero (a positive denominator).
pub open spec fn mul_div_of(n: int, numerator: int, denominator: int) -> int {
    let p = n * numerator;
    if p >= 0 { p / denominator } else { -((-p) / denominator) }
}

/// `n * numerator / denominator` computed in 64 bits and rounded toward
/// zero, for a positive denominator and a result that fits in `i32`.
pub fn mul_div(n: i32, numerator: i32, denominator: i32) -> (r: i32)
    requires
        denominator > 0,
        i32::MIN <= mul_div_of(n as int, numerator as int, denominator as int) <= i32::MAX,
    ensures
        r == mul_div_of(n as int, numerator as int, denominator as int),
{
    let a = n as i64;
    let b = numerator as i64;
    assert(-4611686018427387904 <= a * b <= 4611686018427387904) by (nonlinear_arith)
        requires
            -2147483648 <= a <= 2147483647,
            -2147483648 <= b <= 2147483647,
    ;
    let p: i64 = a * b;
    let d = denominator as i64;
    let q: i64 = if p >= 0 { p / d } else { -((-p) / d) };
    q as i32
}

/// The heights of the popup's fonts at a screen's vertical DPI: 12 points
/// for the normal fonts and 10 for the small ones, negative as font
/// heights are asked for by character height.
pub fn font_heights(dpi_y: i32) -> (r: (i32, i32))
    ensures
        r.0 == -mul_div_of(12, dpi_y as int, 72),
        r.1 == -mul_div_of(10, dpi_y as int, 72),
{
    assert(-2147483648 * 12 <= 12 * dpi_y <= 2147483647 * 12) by (nonlinear_arith)
        requires
            -2147483648 <= dpi_y <= 2147483647,
    ;
    assert(-2147483648 * 10 <= 10 * dpi_y <= 2147483647 * 10) by (nonlinear_arith)
        requires
            -2147483648 <= dpi_y <= 2147483647,
    ;
    (-mul_div(12, dpi_y, 72), -mul_div(10, dpi_y, 72))
}

} // verus!
