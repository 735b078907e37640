//! Favorite snippets: normalization, de-duplication and the variant-family rule.

use vstd::prelude::*;
use crate::normalize::{normalize_chars, normalize_text, normalized};
use crate::seqs::{contains, contains_exec, deep, ends_with, ends_with_exec, occurs_at, occurs_at_exec, starts_with, starts_with_exec};
use crate::text::{
    char_is_alphanumeric, chars_eq, chars_to_string, str_chars, str_to_lowercase,
    unicode_alphanumeric, unicode_lowercase,
};

verus! {

/// The user's favorite snippets, normalized and without case-insensitive repeats.
pub struct FavoritesList {
    pub snippets: Vec<String>,
}

pub open spec fn strings_view(v: Seq<String>) -> Seq<Seq<char>> {
    v.map_values(|s: String| s@)
}

/// Normalizes a snippet the way it is stored.
pub fn normalize_snippet(value: &str) -> (r: String)
    ensures
        r@ == normalized(value@),
{
    normalize_text(value)
}

/// Whether a kept snippet already has the lower-cased form `key`.
pub open spec fn has_lower(kept: Seq<Seq<char>>, key: Seq<char>) -> bool {
    exists|k: int| 0 <= k < kept.len() && unicode_lowercase(#[trigger] kept[k]) == key
}

/// The normalized, non-blank items, keeping the first of every group that
/// is equal ignoring case.
pub open spec fn dedupe_norm(items: Seq<Seq<char>>) -> Seq<Seq<char>>
    decreases items.len(),
{
    if items.len() == 0 {
        Seq::empty()
    } else {
        let p = dedupe_norm(items.drop_last());
        let n = normalized(items.last());
        if n.len() == 0 || has_lower(p, unicode_lowercase(n)) { p } else { p.push(n) }
    }
}

fn lower_chars(v: &[char]) -> (r: Vec<char>)
    ensures
        r@ == unicode_lowercase(v@),
{
    let s = chars_to_string(v);
    let l = str_to_lowercase(s.as_str());
    str_chars(l.as_str())
}

fn string_chars(s: &String) -> (r: Vec<char>)
    ensures
        r@ == s@,
{
    str_chars(s.as_str())
}

/// Normalizes every item and drops blank ones and case-insensitive repeats.
pub fn dedupe_normalized(items: Vec<String>) -> (r: Vec<String>)
    ensures
        strings_view(r@) == dedupe_norm(strings_view(items@)),
{
    let ghost its = strings_view(items@);
    let mut out: Vec<String> = Vec::new();
    let mut seen: Vec<Vec<char>> = Vec::new();
    let mut i: usize = 0;
    while i < items.len()
        invariant
            i <= items.len(),
            its == strings_view(items@),
            strings_view(out@) == dedupe_norm(its.subrange(0, i as int)),
            seen@.len() == out@.len(),
            forall|k: int| 0 <= k < seen@.len() ==> #[trigger] seen@[k]@ == unicode_lowercase(out@[k]@),
        decreases items.len() - i,
    {
        assert(its.subrange(0, i + 1).drop_last() =~= its.subrange(0, i as int));
        assert(its.subrange(0, i + 1).last() == items@[i as int]@);
        let normalized_item = normalize_chars(&string_chars(&items[i]));
        if normalized_item.len() > 0 {
            let key = lower_chars(&normalized_item);
            let mut found = false;
            let mut k: usize = 0;
            while k < seen.len()
                invariant
                    k <= seen.len(),
                    found == exists|j: int| 0 <= j < k && #[trigger] seen@[j]@ == key@,
                decreases seen.len() - k,
            {
                if chars_eq(&seen[k], &key) {
                    found = true;
                }
                k += 1;
            }
            proof {
                let p = strings_view(out@);
                if found {
                    let j = choose|j: int| 0 <= j < seen@.len() && #[trigger] seen@[j]@ == key@;
                    assert(p[j] == out@[j]@);
                    assert(has_lower(p, key@));
                } else {
                    assert forall|j: int| 0 <= j < p.len() implies unicode_lowercase(#[trigger] p[j]) != key@ by {
                        assert(p[j] == out@[j]@);
                        assert(seen@[j]@ == unicode_lowercase(out@[j]@));
                    }
                }
            }
            if !found {
                let ghost before = out@;
                let item = chars_to_string(&normalized_item);
                seen.push(key);
                out.push(item);
                assert(strings_view(out@) =~= strings_view(before).push(normalized_item@));
            }
        }
        i += 1;
    }
    assert(its.subrange(0, items.len() as int) =~= its);
    out
}

/// The favorites list made from the snippets read from the favorites file.
pub fn favorites_from_snippets(snippets: Vec<String>) -> (r: FavoritesList)
    ensures
        strings_view(r.snippets@) == dedupe_norm(strings_view(snippets@)),
{
    FavoritesList { snippets: dedupe_normalized(snippets) }
}

// ---------------------------------------------------------------- the family rule

/// Whether no letter or digit touches `text[start..end]` on either side.
pub open spec fn word_boundary(text: Seq<char>, start: int, end: int) -> bool {
    &&& (start <= 0 || !unicode_alphanumeric(text[start - 1]))
    &&& (end >= text.len() || !unicode_alphanumeric(text[end]))
}

/// The first occurrence of `p` in `s` at or after `from`.
pub open spec fn find_from(s: Seq<char>, p: Seq<char>, from: int) -> Option<int>
    decreases s.len() - from,
{
    if from < 0 || from + p.len() > s.len() {
        None
    } else if occurs_at(s, p, from) {
        Some(from)
    } else if from >= s.len() {
        None
    } else {
        find_from(s, p, from + 1)
    }
}

/// Whether one of the non-overlapping occurrences of `p` in `s`, found left
/// to right from `from` (as `str::match_indices` finds them), stands at a
/// word boundary.
pub open spec fn matches_at_boundary(s: Seq<char>, p: Seq<char>, from: int) -> bool
    decreases s.len() - from,
{
    if p.len() == 0 || from < 0 {
        false
    } else {
        match find_from(s, p, from) {
            None => false,
            Some(k) => {
                proof {
                    lemma_find_from_bound(s, p, from);
                }
                word_boundary(s, k, k + p.len()) || matches_at_boundary(s, p, k + p.len())
            },
        }
    }
}

pub proof fn lemma_find_from_bound(s: Seq<char>, p: Seq<char>, from: int)
    ensures
        find_from(s, p, from) matches Some(k) ==> from <= k && occurs_at(s, p, k),
    decreases s.len() - from,
{
    if !(from < 0 || from + p.len() > s.len()) && !occurs_at(s, p, from) && from < s.len() {
        lemma_find_from_bound(s, p, from + 1);
    }
}

/// `shorter` occurs in `longer` as a whole word.
pub open spec fn contains_at_word_boundary(longer: Seq<char>, shorter: Seq<char>) -> bool {
    shorter.len() > 0 && longer.len() > 0 && matches_at_boundary(longer, shorter, 0)
}

/// `longer` is `shorter` with one ASCII character added at one end.
pub open spec fn single_edge_trim_variant(longer: Seq<char>, shorter: Seq<char>) -> bool {
    longer.len() == shorter.len() + 1 && (
        (starts_with(longer, shorter) && longer.last() < '\u{80}')
        || (ends_with(longer, shorter) && longer[0] < '\u{80}'))
}

/// Whether two lower-cased snippets belong to one family: equal, or the
/// shorter occurs in the longer as a whole word, or they differ by one
/// ASCII character at one end.
pub open spec fn variant_family(a: Seq<char>, b: Seq<char>) -> bool {
    let (longer, shorter) = if a.len() >= b.len() { (a, b) } else { (b, a) };
    if a == b {
        true
    } else if shorter.len() == 0 || !contains(longer, shorter) {
        false
    } else {
        contains_at_word_boundary(longer, shorter) || single_edge_trim_variant(longer, shorter)
    }
}

fn word_boundary_exec(text: &[char], start: usize, end: usize) -> (r: bool)
    requires
        start <= end <= text.len(),
    ensures
        r == word_boundary(text@, start as int, end as int),
{
    let prev_ok = start == 0 || !char_is_alphanumeric(text[start - 1]);
    let next_ok = end >= text.len() || !char_is_alphanumeric(text[end]);
    prev_ok && next_ok
}

fn find_from_exec(s: &[char], p: &[char], from: usize) -> (r: Option<usize>)
    ensures
        match r {
            Some(k) => find_from(s@, p@, from as int) == Some(k as int),
            None => find_from(s@, p@, from as int) is None,
        },
{
    if p.len() > s.len() {
        return None;
    }
    let n = s.len() - p.len();
    let mut i = from;
    while i <= n
        invariant
            from <= i,
            n == s.len() - p.len(),
            p.len() <= s.len(),
            find_from(s@, p@, from as int) == find_from(s@, p@, i as int),
        decreases n + 1 - i,
    {
        if occurs_at_exec(s, p, i) {
            return Some(i);
        }
        if i == n {
            assert(find_from(s@, p@, i + 1) is None);
            return None;
        }
        i += 1;
    }
    None
}

/// Whether `shorter` occurs in `longer` as a whole word.
pub fn contains_at_word_boundary_exec(longer: &[char], shorter: &[char]) -> (r: bool)
    ensures
        r == contains_at_word_boundary(longer@, shorter@),
{
    if shorter.len() == 0 || longer.len() == 0 {
        return false;
    }
    let mut from: usize = 0;
    while from <= longer.len()
        invariant
            shorter@.len() > 0,
            matches_at_boundary(longer@, shorter@, 0) == matches_at_boundary(longer@, shorter@, from as int),
        decreases longer.len() + 1 - from,
    {
        match find_from_exec(longer, shorter, from) {
            None => return false,
            Some(k) => {
                proof {
                    lemma_find_from_bound(longer@, shorter@, from as int);
                }
                if word_boundary_exec(longer, k, k + shorter.len()) {
                    return true;
                }
                from = k + shorter.len();
            },
        }
    }
    false
}

/// Whether `longer` is `shorter` with one ASCII character added at one end.
pub fn is_single_edge_trim_variant(longer: &[char], shorter: &[char]) -> (r: bool)
    ensures
        r == single_edge_trim_variant(longer@, shorter@),
{
    if shorter.len() >= longer.len() || longer.len() - shorter.len() != 1 {
        return false;
    }
    (starts_with_exec(longer, shorter) && longer[longer.len() - 1] < '\u{80}')
        || (ends_with_exec(longer, shorter) && longer[0] < '\u{80}')
}

/// Whether two lower-cased snippets belong to one variant family.
pub fn is_variant_family(a_lower: &str, b_lower: &str) -> (r: bool)
    ensures
        r == variant_family(a_lower@, b_lower@),
{
    let a = str_chars(a_lower);
    let b = str_chars(b_lower);
    is_variant_family_chars(&a, &b)
}

fn is_variant_family_chars(a: &[char], b: &[char]) -> (r: bool)
    ensures
        r == variant_family(a@, b@),
{
    if chars_eq(a, b) {
        return true;
    }
    let (longer, shorter) = if a.len() >= b.len() { (a, b) } else { (b, a) };
    if shorter.len() == 0 || !contains_exec(longer, shorter) {
        return false;
    }
    contains_at_word_boundary_exec(longer, shorter) || is_single_edge_trim_variant(longer, shorter)
}

/// The normalized entries of `list` outside the family of `selected_lower`.
pub open spec fn outside_family(list: Seq<Seq<char>>, selected_lower: Seq<char>) -> Seq<Seq<char>>
    decreases list.len(),
{
    if list.len() == 0 {
        Seq::empty()
    } else {
        let p = outside_family(list.drop_last(), selected_lower);
        let n = normalized(list.last());
        if n.len() == 0 || variant_family(unicode_lowercase(n), selected_lower) { p } else { p.push(n) }
    }
}

/// The list without every entry of the selected snippet's family.
pub open spec fn without_family(list: Seq<Seq<char>>, selected: Seq<char>) -> Seq<Seq<char>> {
    let sel = normalized(selected);
    if sel.len() == 0 {
        dedupe_norm(list)
    } else {
        dedupe_norm(outside_family(list, unicode_lowercase(sel)))
    }
}

/// Removes the selected snippet and every variant of it from the list.
pub fn remove_variant_family(list: Vec<String>, selected: &str) -> (r: Vec<String>)
    ensures
        strings_view(r@) == without_family(strings_view(list@), selected@),
{
    let sel = normalize_chars(&str_chars(selected));
    if sel.len() == 0 {
        return dedupe_normalized(list);
    }
    let sel_lower = lower_chars(&sel);
    let ghost ls = strings_view(list@);
    let mut kept: Vec<String> = Vec::new();
    let mut i: usize = 0;
    while i < list.len()
        invariant
            i <= list.len(),
            ls == strings_view(list@),
            strings_view(kept@) == outside_family(ls.subrange(0, i as int), sel_lower@),
        decreases list.len() - i,
    {
        assert(ls.subrange(0, i + 1).drop_last() =~= ls.subrange(0, i as int));
        assert(ls.subrange(0, i + 1).last() == list@[i as int]@);
        let n = normalize_chars(&string_chars(&list[i]));
        if n.len() > 0 {
            let entry_lower = lower_chars(&n);
            if !is_variant_family_chars(&entry_lower, &sel_lower) {
                let ghost before = kept@;
                kept.push(chars_to_string(&n));
                assert(strings_view(kept@) =~= strings_view(before).push(n@));
            }
        }
        i += 1;
    }
    assert(ls.subrange(0, list.len() as int) =~= ls);
    dedupe_normalized(kept)
}

/// What toggling a snippet does to the favorites list: the list to save,
/// if it changes, and whether the snippet is a favorite afterwards.
pub open spec fn toggle_outcome(list: Seq<Seq<char>>, value: Seq<char>) -> (Option<Seq<Seq<char>>>, bool) {
    let n = normalized(value);
    let key = unicode_lowercase(n);
    if n.len() == 0 {
        (None, false)
    } else if exists|k: int| 0 <= k < list.len() && unicode_lowercase(#[trigger] list[k]) == key {
        (Some(without_family(list, n)), false)
    } else {
        (Some(dedupe_norm(list.push(n))), true)
    }
}

/// Toggles a snippet in the favorites list: removes its whole variant
/// family when it is already there (compared ignoring case), else adds it.
/// Returns the list to save, if any, and whether the snippet was added.
pub fn toggle_snippet(list: Vec<String>, value: &str) -> (r: (Option<Vec<String>>, bool))
    ensures
        (match r.0 { Some(v) => Some(strings_view(v@)), None => None }, r.1) == toggle_outcome(strings_view(list@), value@),
{
    let normalized_value = normalize_snippet(value);
    let nchars = string_chars(&normalized_value);
    if nchars.len() == 0 {
        return (None, false);
    }
    let key = lower_chars(&nchars);
    let ghost ls = strings_view(list@);
    let mut found = false;
    let mut i: usize = 0;
    while i < list.len()
        invariant
            i <= list.len(),
            ls == strings_view(list@),
            found == exists|k: int| 0 <= k < i && unicode_lowercase(#[trigger] ls[k]) == key@,
        decreases list.len() - i,
    {
        let entry_lower = lower_chars(&string_chars(&list[i]));
        assert(ls[i as int] == list@[i as int]@);
        if chars_eq(&entry_lower, &key) {
            found = true;
        }
        i += 1;
    }
    if found {
        let filtered = remove_variant_family(list, normalized_value.as_str());
        proof {
            crate::normalize::lemma_normalize_idempotent(value@);
        }
        (Some(filtered), false)
    } else {
        let mut list = list;
        let ghost before = list@;
        list.push(normalized_value);
        assert(strings_view(list@) =~= strings_view(before).push(nchars@));
        (Some(dedupe_normalized(list)), true)
    }
}


// ---------------------------------------------------------------- the popup's copy

/// How long the popup trusts its copy of the favorites before looking at
/// the file again.
pub const FAVORITES_RELOAD_INTERVAL_MS: i64 = 1000;

/// The snippets as the popup matches them: normalized, non-blank, lower case.
pub open spec fn lowered(items: Seq<Seq<char>>) -> Seq<Seq<char>>
    decreases items.len(),
{
    if items.len() == 0 {
        Seq::empty()
    } else {
        let p = lowered(items.drop_last());
        let n = normalized(items.last());
        if n.len() == 0 { p } else { p.push(unicode_lowercase(n)) }
    }
}

/// The snippets as the popup matches them.
pub fn lower_snippets(snippets: &Vec<String>) -> (r: Vec<String>)
    ensures
        strings_view(r@) == lowered(strings_view(snippets@)),
{
    let ghost items = strings_view(snippets@);
    let mut out: Vec<String> = Vec::new();
    let mut i: usize = 0;
    while i < snippets.len()
        invariant
            i <= snippets.len(),
            items == strings_view(snippets@),
            strings_view(out@) == lowered(items.subrange(0, i as int)),
        decreases snippets.len() - i,
    {
        proof {
            let pre = items.subrange(0, i + 1);
            assert(pre.drop_last() =~= items.subrange(0, i as int));
            assert(pre.last() == snippets@[i as int]@);
        }
        let normalized_snippet = normalize_snippet(snippets[i].as_str());
        if str_chars(normalized_snippet.as_str()).len() > 0 {
            let ghost before = strings_view(out@);
            let lower = str_to_lowercase(normalized_snippet.as_str());
            out.push(lower);
            assert(strings_view(out@) =~= before.push(lower@));
        }
        i += 1;
    }
    assert(items.subrange(0, snippets.len() as int) =~= items);
    out
}

/// The popup's copy of the favorites: whether it was loaded, the file's
/// modification time it was loaded at, when to look at the file again, and
/// the snippets as the popup matches them.
pub struct FavoritesCache {
    pub loaded: bool,
    pub mtime_ms: i64,
    pub next_check_epoch_ms: i64,
    pub snippets_lower: Vec<String>,
}

impl FavoritesCache {
    /// A copy that was never loaded.
    pub fn new() -> (r: Self)
        ensures
            !r.loaded,
            r.mtime_ms == 0,
            r.next_check_epoch_ms == 0,
            r.snippets_lower@.len() == 0,
    {
        FavoritesCache { loaded: false, mtime_ms: 0, next_check_epoch_ms: 0, snippets_lower: Vec::new() }
    }

    /// Whether the copy can be used at `now` without looking at the file.
    pub fn is_fresh(&self, now: i64) -> (r: bool)
        ensures
            r == (self.loaded && now < self.next_check_epoch_ms),
    {
        self.loaded && now < self.next_check_epoch_ms
    }

    /// Whether the file, last modified at `mtime_ms` (`-1` when it cannot be
    /// read), has to be loaded again.
    pub fn needs_reload(&self, mtime_ms: i64) -> (r: bool)
        ensures
            r == (!self.loaded || mtime_ms != self.mtime_ms),
    {
        !self.loaded || mtime_ms != self.mtime_ms
    }

    /// Records a look at the file at `now`: with the snippets loaded from it
    /// when it was reloaded, which become the copy; the next look is due a
    /// second later.
    pub fn record_check(&mut self, now: i64, mtime_ms: i64, reloaded: Option<Vec<String>>)
        requires
            now <= i64::MAX - FAVORITES_RELOAD_INTERVAL_MS,
        ensures
            final(self).next_check_epoch_ms == now + FAVORITES_RELOAD_INTERVAL_MS,
            match reloaded {
                Some(list) => final(self).loaded && final(self).mtime_ms == mtime_ms
                    && strings_view(final(self).snippets_lower@) == lowered(strings_view(list@)),
                None => final(self).loaded == old(self).loaded && final(self).mtime_ms == old(self).mtime_ms
                    && final(self).snippets_lower@ == old(self).snippets_lower@,
            },
    {
        if let Some(list) = reloaded {
            self.snippets_lower = lower_snippets(&list);
            self.mtime_ms = mtime_ms;
            self.loaded = true;
        }
        self.next_check_epoch_ms = now + FAVORITES_RELOAD_INTERVAL_MS;
    }

    /// Forgets the copy, so that the next look loads the file.
    pub fn invalidate(&mut self)
        ensures
            !final(self).loaded,
            final(self).next_check_epoch_ms == 0,
            final(self).mtime_ms == -1,
            final(self).snippets_lower@ == old(self).snippets_lower@,
    {
        self.loaded = false;
        self.next_check_epoch_ms = 0;
        self.mtime_ms = -1;
    }
}

} // verus!
