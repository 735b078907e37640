//! Splitting a menu component into its main text and its allergen suffix.

use vstd::prelude::*;
use crate::normalize::{lemma_normalized_is_normal, normalize_chars, normalized};
use crate::seqs::{
    deep, has_char, has_char_exec, join, join_chars, slice_chars, split_chars, split_on,
    trim_end_by, trim_end_ws, trim_end_ws_chars, trim_start_by,
};
use crate::text::{
    ascii_upper, chars_ascii_upper, chars_eq, chars_to_string, seq_ascii_upper, str_chars,
    unicode_white_space,
};

verus! {

// ---------------------------------------------------------------- tokens

/// Punctuation that surrounds an allergen token and is stripped from it.
pub open spec fn is_token_edge(c: char) -> bool {
    c == '(' || c == ')' || c == ',' || c == ';' || c == ':' || c == '.'
}

/// A token with its surrounding punctuation removed from both ends.
pub open spec fn strip_token_edges(s: Seq<char>) -> Seq<char> {
    trim_end_by(trim_start_by(s, token_edge_fn()), token_edge_fn())
}

pub open spec fn token_edge_fn() -> spec_fn(char) -> bool {
    |c: char| is_token_edge(c)
}

/// The canonical allergen token a piece of text stands for, if any:
/// `*`, a single Latin letter (upper-cased), `ILM`, `VS`, `VL`, or `Veg`,
/// compared case-insensitively after normalizing and stripping punctuation.
pub open spec fn allergen_token(token: Seq<char>) -> Option<Seq<char>> {
    let clean = strip_token_edges(normalized(token));
    let upper = seq_ascii_upper(clean);
    if clean.len() == 0 {
        None
    } else if clean == seq!['*'] {
        Some(seq!['*'])
    } else if upper.len() == 1 && 'A' <= upper[0] && upper[0] <= 'Z' {
        Some(upper)
    } else if upper == seq!['I', 'L', 'M'] || upper == seq!['V', 'S'] || upper == seq!['V', 'L'] {
        Some(upper)
    } else if upper == seq!['V', 'E', 'G'] {
        Some(seq!['V', 'e', 'g'])
    } else {
        None
    }
}

fn is_token_edge_exec(c: char) -> (r: bool)
    ensures
        r == is_token_edge(c),
{
    c == '(' || c == ')' || c == ',' || c == ';' || c == ':' || c == '.'
}

fn strip_token_edges_exec(v: &[char]) -> (r: Vec<char>)
    ensures
        r@ == strip_token_edges(v@),
{
    let mut start: usize = 0;
    assert(v@.subrange(0, v.len() as int) =~= v@);
    while start < v.len() && is_token_edge_exec(v[start])
        invariant
            start <= v.len(),
            trim_start_by(v@, token_edge_fn()) == trim_start_by(v@.subrange(start as int, v.len() as int), token_edge_fn()),
        decreases v.len() - start,
    {
        let ghost rest = v@.subrange(start as int, v.len() as int);
        assert(rest.drop_first() =~= v@.subrange(start + 1, v.len() as int));
        assert(rest[0] == v@[start as int]);
                assert(token_edge_fn()(rest[0]));
        assert(trim_start_by(rest, token_edge_fn()) == trim_start_by(rest.drop_first(), token_edge_fn()));
        start += 1;
    }
    let ghost a = v@.subrange(start as int, v.len() as int);
    assert(trim_start_by(a, token_edge_fn()) == a);
    let mut end: usize = v.len();
    while end > start && is_token_edge_exec(v[end - 1])
        invariant
            start <= end <= v.len(),
            trim_end_by(a, token_edge_fn()) == trim_end_by(v@.subrange(start as int, end as int), token_edge_fn()),
        decreases end,
    {
        let ghost cur = v@.subrange(start as int, end as int);
        assert(cur.drop_last() =~= v@.subrange(start as int, end - 1));
        assert(cur.last() == v@[end - 1]);
        assert(token_edge_fn()(cur.last()));
        assert(trim_end_by(cur, token_edge_fn()) == trim_end_by(cur.drop_last(), token_edge_fn()));
        end -= 1;
    }
    slice_chars(v, start, end)
}

/// Maps a raw piece of text to its canonical allergen token, if it is one.
pub fn normalize_allergen_token(token: &[char]) -> (r: Option<Vec<char>>)
    ensures
        match r {
            Some(t) => allergen_token(token@) == Some(t@),
            None => allergen_token(token@) is None,
        },
{
    let norm = normalize_chars(token);
    let clean = strip_token_edges_exec(&norm);
    let upper = chars_ascii_upper(&clean);
    if clean.len() == 0 {
        return None;
    }
    if clean.len() == 1 && clean[0] == '*' {
        assert(clean@ =~= seq!['*']);
        return Some(vec!['*']);
    }
    assert(clean@ != seq!['*']);
    if upper.len() == 1 && 'A' <= upper[0] && upper[0] <= 'Z' {
        return Some(upper);
    }
    let ilm = vec!['I', 'L', 'M'];
    let vs = vec!['V', 'S'];
    let vl = vec!['V', 'L'];
    let veg = vec!['V', 'E', 'G'];
    if chars_eq(&upper, &ilm) || chars_eq(&upper, &vs) || chars_eq(&upper, &vl) {
        return Some(upper);
    }
    if chars_eq(&upper, &veg) {
        let out = vec!['V', 'e', 'g'];
        assert(out@ =~= seq!['V', 'e', 'g']);
        return Some(out);
    }
    None
}

// ---------------------------------------------------------------- dedupe

/// Whether some token of `ts` equals `t` ignoring ASCII case.
pub open spec fn seen_upper(ts: Seq<Seq<char>>, t: Seq<char>) -> bool {
    exists|j: int| 0 <= j < ts.len() && seq_ascii_upper(#[trigger] ts[j]) == seq_ascii_upper(t)
}

/// Keeps the first of every group of tokens that are equal ignoring ASCII case.
pub open spec fn dedupe_upper(ts: Seq<Seq<char>>) -> Seq<Seq<char>>
    decreases ts.len(),
{
    if ts.len() == 0 {
        Seq::empty()
    } else if seen_upper(ts.drop_last(), ts.last()) {
        dedupe_upper(ts.drop_last())
    } else {
        dedupe_upper(ts.drop_last()).push(ts.last())
    }
}

fn contains_chars(list: &Vec<Vec<char>>, key: &[char]) -> (r: bool)
    ensures
        r == exists|k: int| 0 <= k < list@.len() && #[trigger] list@[k]@ == key@,
{
    let mut i: usize = 0;
    while i < list.len()
        invariant
            i <= list.len(),
            forall|k: int| 0 <= k < i ==> list@[k]@ != key@,
        decreases list.len() - i,
    {
        if chars_eq(&list[i], key) {
            return true;
        }
        i += 1;
    }
    false
}

proof fn lemma_dedupe_seen(ts: Seq<Seq<char>>, t: Seq<char>)
    ensures
        seen_upper(dedupe_upper(ts), t) <==> seen_upper(ts, t),
    decreases ts.len(),
{
    if ts.len() > 0 {
        let p = ts.drop_last();
        lemma_dedupe_seen(p, t);
        let d = dedupe_upper(p);
        if seen_upper(ts, t) {
            let j = choose|j: int| 0 <= j < ts.len() && seq_ascii_upper(#[trigger] ts[j]) == seq_ascii_upper(t);
            if j < p.len() {
                assert(p[j] == ts[j]);
                assert(seen_upper(p, t));
                let k = choose|k: int| 0 <= k < d.len() && seq_ascii_upper(#[trigger] d[k]) == seq_ascii_upper(t);
                assert(dedupe_upper(ts)[k] == d[k]);
            } else if seen_upper(p, ts.last()) {
                lemma_dedupe_seen(p, ts.last());
                let k = choose|k: int| 0 <= k < d.len() && seq_ascii_upper(#[trigger] d[k]) == seq_ascii_upper(ts.last());
                assert(dedupe_upper(ts)[k] == d[k]);
            } else {
                assert(dedupe_upper(ts)[d.len() as int] == ts.last());
            }
        }
        if seen_upper(dedupe_upper(ts), t) {
            let e = dedupe_upper(ts);
            let k = choose|k: int| 0 <= k < e.len() && seq_ascii_upper(#[trigger] e[k]) == seq_ascii_upper(t);
            if k < d.len() {
                assert(e[k] == d[k]);
                assert(seen_upper(d, t));
                let j = choose|j: int| 0 <= j < p.len() && seq_ascii_upper(#[trigger] p[j]) == seq_ascii_upper(t);
                assert(ts[j] == p[j]);
            } else {
                assert(ts[ts.len() - 1] == e[k]);
            }
        }
    }
}

/// Drops tokens that repeat an earlier one ignoring ASCII case.
pub fn dedupe_tokens(tokens: Vec<Vec<char>>) -> (r: Vec<Vec<char>>)
    ensures
        deep(r@) == dedupe_upper(deep(tokens@)),
{
    let ghost ts = deep(tokens@);
    let mut out: Vec<Vec<char>> = Vec::new();
    let mut seen: Vec<Vec<char>> = Vec::new();
    let mut i: usize = 0;
    while i < tokens.len()
        invariant
            i <= tokens.len(),
            ts == deep(tokens@),
            deep(out@) == dedupe_upper(ts.subrange(0, i as int)),
            seen@.len() == out@.len(),
            forall|k: int| 0 <= k < seen@.len() ==> #[trigger] seen@[k]@ == seq_ascii_upper(out@[k]@),
        decreases tokens.len() - i,
    {
        let ghost pre = ts.subrange(0, i as int);
        assert(ts.subrange(0, i + 1).drop_last() =~= pre);
        assert(ts.subrange(0, i + 1).last() == ts[i as int]);
        let key = chars_ascii_upper(&tokens[i]);
        assert(ts[i as int] == tokens@[i as int]@);
        let found = contains_chars(&seen, &key);
        proof {
            lemma_dedupe_seen(pre, ts[i as int]);
            let d = deep(out@);
            if found {
                let k = choose|k: int| 0 <= k < seen@.len() && #[trigger] seen@[k]@ == key@;
                assert(d[k] == out@[k]@);
                assert(seen_upper(d, ts[i as int]));
            } else {
                assert forall|k: int| 0 <= k < d.len() implies seq_ascii_upper(#[trigger] d[k]) != seq_ascii_upper(ts[i as int]) by {
                    assert(d[k] == out@[k]@);
                    assert(seen@[k]@ == seq_ascii_upper(out@[k]@));
                }
            }
        }
        if !found {
            let ghost old_out = out@;
            let t = copy_token(&tokens[i]);
            seen.push(key);
            out.push(t);
            assert(deep(out@) =~= deep(old_out).push(ts[i as int]));
        }
        i += 1;
    }
    assert(ts.subrange(0, tokens.len() as int) =~= ts);
    out
}

fn copy_token(v: &Vec<char>) -> (r: Vec<char>)
    ensures
        r@ == v@,
{
    crate::seqs::copy_chars(v)
}


// ---------------------------------------------------------------- parenthesized groups

/// Scanning `s[..i]` backwards with `depth` unmatched `)` seen so far, the
/// index of the `(` that closes the depth back to zero.
pub open spec fn find_open(s: Seq<char>, i: int, depth: nat) -> Option<int>
    decreases i,
{
    if i <= 0 || i > s.len() {
        None
    } else if s[i - 1] == ')' {
        find_open(s, i - 1, depth + 1)
    } else if s[i - 1] == '(' {
        if depth == 0 {
            None
        } else if depth == 1 {
            Some(i - 1)
        } else {
            find_open(s, i - 1, (depth - 1) as nat)
        }
    } else {
        find_open(s, i - 1, depth)
    }
}

/// The `(` that matches the final `)` of `s`, if the parentheses balance.
pub open spec fn matching_open_paren(s: Seq<char>) -> Option<int> {
    find_open(s, s.len() as int, 0)
}

pub proof fn lemma_find_open_bound(s: Seq<char>, i: int, depth: nat)
    ensures
        find_open(s, i, depth) matches Some(k) ==> 0 <= k < i && s[k] == '(',
    decreases i,
{
    if i > 0 && i <= s.len() {
        if s[i - 1] == ')' {
            lemma_find_open_bound(s, i - 1, depth + 1);
        } else if s[i - 1] == '(' {
            if depth > 1 {
                lemma_find_open_bound(s, i - 1, (depth - 1) as nat);
            }
        } else {
            lemma_find_open_bound(s, i - 1, depth);
        }
    }
}

/// Finds the `(` matching the last `)` of `value`, scanning backwards.
pub fn find_matching_open_paren(value: &[char]) -> (r: Option<usize>)
    ensures
        match r {
            Some(k) => matching_open_paren(value@) == Some(k as int),
            None => matching_open_paren(value@) is None,
        },
{
    let mut idx = value.len();
    let mut depth: usize = 0;
    while idx > 0
        invariant
            idx <= value.len(),
            depth <= value.len() - idx,
            matching_open_paren(value@) == find_open(value@, idx as int, depth as nat),
        decreases idx,
    {
        let ch = value[idx - 1];
        if ch == ')' {
            depth += 1;
        } else if ch == '(' {
            if depth == 0 {
                return None;
            }
            if depth == 1 {
                return Some(idx - 1);
            }
            depth -= 1;
        }
        idx -= 1;
    }
    None
}

/// The outcome of reading the text inside one pair of parentheses.
pub enum GroupSpec {
    Tokens(Seq<Seq<char>>),
    Empty,
    Invalid,
}

/// What reading the inside of a parenthesized group produced.
pub enum ParenthesizedGroup {
    Tokens(Vec<Vec<char>>),
    Empty,
    Invalid,
}

impl ParenthesizedGroup {
    pub open spec fn view(&self) -> GroupSpec {
        match self {
            ParenthesizedGroup::Tokens(t) => GroupSpec::Tokens(deep(t@)),
            ParenthesizedGroup::Empty => GroupSpec::Empty,
            ParenthesizedGroup::Invalid => GroupSpec::Invalid,
        }
    }
}

/// The tokens of the non-blank pieces of `parts`, or `None` as soon as one
/// non-blank piece is no allergen token.
pub open spec fn group_tokens(parts: Seq<Seq<char>>) -> Option<Seq<Seq<char>>>
    decreases parts.len(),
{
    if parts.len() == 0 {
        Some(Seq::empty())
    } else {
        match group_tokens(parts.drop_last()) {
            None => None,
            Some(p) => {
                let clean = normalized(parts.last());
                if clean.len() == 0 {
                    Some(p)
                } else {
                    match allergen_token(clean) {
                        None => None,
                        Some(t) => Some(p.push(t)),
                    }
                }
            },
        }
    }
}

/// How the text inside a pair of parentheses reads: a list of allergen
/// tokens (split at commas when there is one, else at spaces), nothing at
/// all, or something that is not an allergen list.
pub open spec fn parse_group(raw: Seq<char>) -> GroupSpec {
    let inside = normalized(raw);
    if inside.len() == 0 {
        GroupSpec::Empty
    } else {
        let parts = if has_char(inside, ',') { split_on(inside, ',') } else { split_on(inside, ' ') };
        match group_tokens(parts) {
            None => GroupSpec::Invalid,
            Some(t) => if t.len() == 0 { GroupSpec::Empty } else { GroupSpec::Tokens(t) },
        }
    }
}

proof fn lemma_group_tokens_none_extends(parts: Seq<Seq<char>>, m: int)
    requires
        0 <= m <= parts.len(),
        group_tokens(parts.subrange(0, m)) is None,
    ensures
        group_tokens(parts) is None,
    decreases parts.len() - m,
{
    if m < parts.len() {
        assert(parts.subrange(0, m + 1).drop_last() =~= parts.subrange(0, m));
        lemma_group_tokens_none_extends(parts, m + 1);
    } else {
        assert(parts.subrange(0, m) =~= parts);
    }
}

/// Reads the inside of a parenthesized group. Normalized text holds no
/// whitespace but single spaces, so splitting at `' '` and skipping blank
/// pieces reads the same pieces as splitting at whitespace.
pub fn parse_parenthesized_group_tokens(raw_inside: &[char]) -> (r: ParenthesizedGroup)
    ensures
        r.view() == parse_group(raw_inside@),
{
    let inside = normalize_chars(raw_inside);
    if inside.len() == 0 {
        return ParenthesizedGroup::Empty;
    }
    let parts = if has_char_exec(&inside, ',') {
        split_chars(&inside, ',')
    } else {
        split_chars(&inside, ' ')
    };
    let ghost ps = deep(parts@);
    assert(ps == (if has_char(inside@, ',') { split_on(inside@, ',') } else { split_on(inside@, ' ') }));
    let mut tokens: Vec<Vec<char>> = Vec::new();
    let mut i: usize = 0;
    assert(ps.subrange(0, 0) =~= Seq::<Seq<char>>::empty());
    while i < parts.len()
        invariant
            i <= parts.len(),
            ps == deep(parts@),
            inside@ == normalized(raw_inside@),
            inside@.len() > 0,
            ps == (if has_char(inside@, ',') { split_on(inside@, ',') } else { split_on(inside@, ' ') }),
            group_tokens(ps.subrange(0, i as int)) == Some(deep(tokens@)),
        decreases parts.len() - i,
    {
        assert(ps.subrange(0, i + 1).drop_last() =~= ps.subrange(0, i as int));
        assert(ps.subrange(0, i + 1).last() == parts@[i as int]@);
        let clean = normalize_chars(&parts[i]);
        if clean.len() > 0 {
            match normalize_allergen_token(&clean) {
                Some(t) => {
                    let ghost old_tokens = tokens@;
                    tokens.push(t);
                    assert(deep(tokens@) =~= deep(old_tokens).push(t@));
                },
                None => {
                    proof {
                        assert(ps[i as int] == parts@[i as int]@);
                        assert(group_tokens(ps.subrange(0, i + 1)) is None);
                        lemma_group_tokens_none_extends(ps, i + 1);
                    }
                    return ParenthesizedGroup::Invalid;
                },
            }
        }
        i += 1;
    }
    assert(ps.subrange(0, parts.len() as int) =~= ps);
    if tokens.len() == 0 {
        ParenthesizedGroup::Empty
    } else {
        ParenthesizedGroup::Tokens(tokens)
    }
}

pub proof fn lemma_trim_end_by_len(s: Seq<char>, f: spec_fn(char) -> bool)
    ensures
        trim_end_by(s, f).len() <= s.len(),
        trim_end_by(s, f) == s.subrange(0, trim_end_by(s, f).len() as int),
    decreases s.len(),
{
    if s.len() > 0 && f(s.last()) {
        lemma_trim_end_by_len(s.drop_last(), f);
        let t = trim_end_by(s.drop_last(), f);
        assert(s.drop_last().subrange(0, t.len() as int) =~= s.subrange(0, t.len() as int));
    } else {
        assert(s.subrange(0, s.len() as int) =~= s);
    }
}

/// The allergen groups in trailing parentheses of `main`, innermost last:
/// the text left in front of them, and their tokens in reading order.
/// Empty groups are dropped; a group that is no allergen list stops the scan.
pub open spec fn trailing_groups(main: Seq<char>) -> (Seq<char>, Seq<Seq<char>>)
    decreases main.len(),
{
    let trimmed = trim_end_ws(main);
    if !(trimmed.len() > 0 && trimmed.last() == ')') {
        (main, Seq::empty())
    } else {
        match matching_open_paren(trimmed) {
            None => (main, Seq::empty()),
            Some(start) => {
                proof {
                    lemma_trim_end_by_len(main, |c: char| unicode_white_space(c));
                    lemma_find_open_bound(trimmed, trimmed.len() as int, 0);
                    lemma_trim_end_by_len(trimmed.subrange(0, start), |c: char| unicode_white_space(c));
                }
                let rest = trim_end_ws(trimmed.subrange(0, start));
                match parse_group(trimmed.subrange(start + 1, trimmed.len() - 1)) {
                    GroupSpec::Tokens(t) => {
                        let (m, g) = trailing_groups(rest);
                        (m, g + t)
                    },
                    GroupSpec::Empty => trailing_groups(rest),
                    GroupSpec::Invalid => (main, Seq::empty()),
                }
            },
        }
    }
}

/// Strips trailing parenthesized allergen groups, returning the text in
/// front of them and their tokens in reading order.
pub fn extract_trailing_parenthesized_allergens(main: Vec<char>) -> (r: (Vec<char>, Vec<Vec<char>>))
    ensures
        (r.0@, deep(r.1@)) == trailing_groups(main@),
    decreases main@.len(),
{
    let trimmed = trim_end_ws_chars(&main);
    if !(trimmed.len() > 0 && trimmed[trimmed.len() - 1] == ')') {
        return (main, Vec::new());
    }
    let start = match find_matching_open_paren(&trimmed) {
        Some(value) => value,
        None => return (main, Vec::new()),
    };
    proof {
        lemma_trim_end_by_len(main@, |c: char| unicode_white_space(c));
        lemma_find_open_bound(trimmed@, trimmed@.len() as int, 0);
        lemma_trim_end_by_len(trimmed@.subrange(0, start as int), |c: char| unicode_white_space(c));
    }
    let end = trimmed.len() - 1;
    let inside = slice_chars(&trimmed, start + 1, end);
    let head = slice_chars(&trimmed, 0, start);
    let rest = trim_end_ws_chars(&head);
    match parse_parenthesized_group_tokens(&inside) {
        ParenthesizedGroup::Tokens(tokens) => {
            let (m, mut groups) = extract_trailing_parenthesized_allergens(rest);
            let ghost g0 = groups@;
            let mut k: usize = 0;
            while k < tokens.len()
                invariant
                    k <= tokens.len(),
                    deep(groups@) == deep(g0) + deep(tokens@).subrange(0, k as int),
                decreases tokens.len() - k,
            {
                let t = copy_token(&tokens[k]);
                let ghost before = groups@;
                groups.push(t);
                assert(deep(groups@) =~= deep(before).push(tokens@[k as int]@));
                assert(deep(tokens@).subrange(0, k + 1) =~= deep(tokens@).subrange(0, k as int).push(tokens@[k as int]@));
                assert(deep(groups@) =~= deep(g0) + deep(tokens@).subrange(0, k + 1));
                k += 1;
            }
            assert(deep(tokens@).subrange(0, tokens.len() as int) =~= deep(tokens@));
            (m, groups)
        },
        ParenthesizedGroup::Empty => extract_trailing_parenthesized_allergens(rest),
        ParenthesizedGroup::Invalid => (main, Vec::new()),
    }
}


// ---------------------------------------------------------------- inline allergen lists

/// Characters stripped from the end of a text before reading an inline list.
pub open spec fn is_inline_tail(c: char) -> bool {
    c == ' ' || c == ',' || c == ';' || c == ':' || c == '.'
}

pub open spec fn inline_tail_fn() -> spec_fn(char) -> bool {
    |c: char| is_inline_tail(c)
}

/// Characters stripped from the end of the main text.
pub open spec fn is_main_tail(c: char) -> bool {
    c == ' ' || c == ',' || c == ';' || c == ':'
}

pub open spec fn main_tail_fn() -> spec_fn(char) -> bool {
    |c: char| is_main_tail(c)
}

/// The normalized pieces of `ps` that are not blank, in order.
pub open spec fn norm_nonempty(ps: Seq<Seq<char>>) -> Seq<Seq<char>>
    decreases ps.len(),
{
    if ps.len() == 0 {
        Seq::empty()
    } else if normalized(ps.last()).len() == 0 {
        norm_nonempty(ps.drop_last())
    } else {
        norm_nonempty(ps.drop_last()).push(normalized(ps.last()))
    }
}

/// The allergen tokens of the longest run of pieces at the end of `ps` that
/// are all allergen tokens, in order.
pub open spec fn trailing_tokens(ps: Seq<Seq<char>>) -> Seq<Seq<char>>
    decreases ps.len(),
{
    if ps.len() == 0 {
        Seq::empty()
    } else {
        match allergen_token(normalized(ps.last())) {
            None => Seq::empty(),
            Some(t) => trailing_tokens(ps.drop_last()).push(t),
        }
    }
}

/// The index of the last whitespace character of `s[..i]`.
pub open spec fn last_ws_before(s: Seq<char>, i: int) -> Option<int>
    decreases i,
{
    if i <= 0 || i > s.len() {
        None
    } else if unicode_white_space(s[i - 1]) {
        Some(i - 1)
    } else {
        last_ws_before(s, i - 1)
    }
}

pub proof fn lemma_last_ws_bound(s: Seq<char>, i: int)
    ensures
        last_ws_before(s, i) matches Some(k) ==> 0 <= k < i && k < s.len(),
    decreases i,
{
    if i > 0 && i <= s.len() && !unicode_white_space(s[i - 1]) {
        lemma_last_ws_bound(s, i - 1);
    }
}

/// Splits the last word off `text` when it is an allergen token and some
/// text stays in front of it.
pub open spec fn peel(text: Seq<char>) -> Option<(Seq<char>, Seq<char>)> {
    let trimmed = trim_end_ws(text);
    match last_ws_before(trimmed, trimmed.len() as int) {
        None => None,
        Some(idx) => {
            let prefix = normalized(trimmed.subrange(0, idx));
            match allergen_token(normalized(trimmed.subrange(idx + 1, trimmed.len() as int))) {
                None => None,
                Some(t) => if prefix.len() == 0 { None } else { Some((prefix, t)) },
            }
        },
    }
}

pub proof fn lemma_peel_shorter(text: Seq<char>)
    ensures
        peel(text) matches Some((p, _)) ==> p.len() < text.len(),
{
    let trimmed = trim_end_ws(text);
    lemma_trim_end_by_len(text, |c: char| unicode_white_space(c));
    lemma_last_ws_bound(trimmed, trimmed.len() as int);
    if let Some(idx) = last_ws_before(trimmed, trimmed.len() as int) {
        crate::normalize::lemma_normalized_len(trimmed.subrange(0, idx));
    }
}

/// Peels allergen words off the end of `main` one at a time.
pub open spec fn peel_all(main: Seq<char>) -> (Seq<char>, Seq<Seq<char>>)
    decreases main.len(),
{
    match peel(main) {
        None => (main, Seq::empty()),
        Some((next, t)) => {
            if next.len() == 0 {
                (main, Seq::empty())
            } else {
                proof {
                    lemma_peel_shorter(main);
                }
                let (m, ts) = peel_all(next);
                (m, ts.push(t))
            }
        },
    }
}

/// The inline allergen list at the end of `text` (comma-separated tokens,
/// then space-separated ones), and the text in front of it; or `text`
/// compacted and no tokens when there is no such list.
pub open spec fn inline_allergens(text: Seq<char>) -> (Seq<char>, Seq<Seq<char>>) {
    let compact = trim_end_by(normalized(text), inline_tail_fn());
    let parts = norm_nonempty(split_on(compact, ','));
    let suffix = trailing_tokens(parts);
    let main = normalized(join(parts.subrange(0, parts.len() - suffix.len()), seq![',', ' ']));
    if compact.len() == 0 {
        (Seq::empty(), Seq::empty())
    } else if parts.len() < 2 || suffix.len() == 0 || main.len() == 0 {
        (compact, Seq::empty())
    } else {
        let (m, ts) = peel_all(main);
        if m.len() == 0 {
            (compact, Seq::empty())
        } else {
            (m, ts + suffix)
        }
    }
}

proof fn lemma_trailing_tokens_len(ps: Seq<Seq<char>>)
    ensures
        trailing_tokens(ps).len() <= ps.len(),
    decreases ps.len(),
{
    if ps.len() > 0 {
        lemma_trailing_tokens_len(ps.drop_last());
    }
}

fn trim_end_inline_tail(v: &[char]) -> (r: Vec<char>)
    ensures
        r@ == trim_end_by(v@, inline_tail_fn()),
{
    let mut end = v.len();
    assert(v@.subrange(0, v.len() as int) =~= v@);
    while end > 0 && (v[end - 1] == ' ' || v[end - 1] == ',' || v[end - 1] == ';' || v[end - 1] == ':' || v[end - 1] == '.')
        invariant
            end <= v.len(),
            trim_end_by(v@, inline_tail_fn()) == trim_end_by(v@.subrange(0, end as int), inline_tail_fn()),
        decreases end,
    {
        let ghost cur = v@.subrange(0, end as int);
        assert(cur.drop_last() =~= v@.subrange(0, end - 1));
        assert(cur.last() == v@[end - 1]);
        assert(inline_tail_fn()(cur.last()));
        end -= 1;
    }
    slice_chars(v, 0, end)
}

fn trim_end_main_tail(v: &[char]) -> (r: Vec<char>)
    ensures
        r@ == trim_end_by(v@, main_tail_fn()),
{
    let mut end = v.len();
    assert(v@.subrange(0, v.len() as int) =~= v@);
    while end > 0 && (v[end - 1] == ' ' || v[end - 1] == ',' || v[end - 1] == ';' || v[end - 1] == ':')
        invariant
            end <= v.len(),
            trim_end_by(v@, main_tail_fn()) == trim_end_by(v@.subrange(0, end as int), main_tail_fn()),
        decreases end,
    {
        let ghost cur = v@.subrange(0, end as int);
        assert(cur.drop_last() =~= v@.subrange(0, end - 1));
        assert(cur.last() == v@[end - 1]);
        assert(main_tail_fn()(cur.last()));
        end -= 1;
    }
    slice_chars(v, 0, end)
}

fn norm_nonempty_exec(ps: &Vec<Vec<char>>) -> (r: Vec<Vec<char>>)
    ensures
        deep(r@) == norm_nonempty(deep(ps@)),
{
    let mut out: Vec<Vec<char>> = Vec::new();
    let mut i: usize = 0;
    while i < ps.len()
        invariant
            i <= ps.len(),
            deep(out@) == norm_nonempty(deep(ps@).subrange(0, i as int)),
        decreases ps.len() - i,
    {
        assert(deep(ps@).subrange(0, i + 1).drop_last() =~= deep(ps@).subrange(0, i as int));
        assert(deep(ps@).subrange(0, i + 1).last() == ps@[i as int]@);
        let n = normalize_chars(&ps[i]);
        if n.len() > 0 {
            let ghost before = out@;
            out.push(n);
            assert(deep(out@) =~= deep(before).push(out@.last()@));
        }
        i += 1;
    }
    assert(deep(ps@).subrange(0, ps.len() as int) =~= deep(ps@));
    out
}

/// The normalized non-blank pieces of `ps`.
pub fn norm_nonempty_pub(ps: &Vec<Vec<char>>) -> (r: Vec<Vec<char>>)
    ensures
        deep(r@) == norm_nonempty(deep(ps@)),
{
    norm_nonempty_exec(ps)
}

fn trailing_tokens_exec(ps: &Vec<Vec<char>>, n: usize) -> (r: Vec<Vec<char>>)
    requires
        n <= ps.len(),
    ensures
        deep(r@) == trailing_tokens(deep(ps@).subrange(0, n as int)),
    decreases n,
{
    if n == 0 {
        return Vec::new();
    }
    let ghost pre = deep(ps@).subrange(0, n as int);
    assert(pre.drop_last() =~= deep(ps@).subrange(0, n - 1));
    assert(pre.last() == ps@[n - 1]@);
    let cand = normalize_chars(&ps[n - 1]);
    match normalize_allergen_token(&cand) {
        None => Vec::new(),
        Some(t) => {
            let mut rest = trailing_tokens_exec(ps, n - 1);
            let ghost before = rest@;
            rest.push(t);
            assert(deep(rest@) =~= deep(before).push(t@));
            rest
        },
    }
}

fn last_ws_index(v: &[char]) -> (r: Option<usize>)
    ensures
        match r {
            Some(k) => last_ws_before(v@, v@.len() as int) == Some(k as int),
            None => last_ws_before(v@, v@.len() as int) is None,
        },
{
    let mut i = v.len();
    while i > 0
        invariant
            i <= v.len(),
            last_ws_before(v@, v@.len() as int) == last_ws_before(v@, i as int),
        decreases i,
    {
        if crate::text::char_is_whitespace(v[i - 1]) {
            return Some(i - 1);
        }
        i -= 1;
    }
    None
}

/// Splits the last word off `text` when it is an allergen token.
pub fn peel_last_allergen_token(text: &[char]) -> (r: Option<(Vec<char>, Vec<char>)>)
    ensures
        match r {
            Some((p, t)) => peel(text@) == Some((p@, t@)),
            None => peel(text@) is None,
        },
{
    let trimmed = trim_end_ws_chars(text);
    let split_idx = match last_ws_index(&trimmed) {
        Some(k) => k,
        None => return None,
    };
    proof {
        lemma_last_ws_bound(trimmed@, trimmed@.len() as int);
    }
    let head = slice_chars(&trimmed, 0, split_idx);
    let prefix = normalize_chars(&head);
    let tail = slice_chars(&trimmed, split_idx + 1, trimmed.len());
    let candidate = normalize_chars(&tail);
    let token = match normalize_allergen_token(&candidate) {
        Some(t) => t,
        None => return None,
    };
    if prefix.len() == 0 {
        None
    } else {
        Some((prefix, token))
    }
}

fn peel_all_exec(main: Vec<char>) -> (r: (Vec<char>, Vec<Vec<char>>))
    ensures
        (r.0@, deep(r.1@)) == peel_all(main@),
    decreases main@.len(),
{
    match peel_last_allergen_token(&main) {
        None => (main, Vec::new()),
        Some((next, t)) => {
            if next.len() == 0 {
                (main, Vec::new())
            } else {
                proof {
                    lemma_peel_shorter(main@);
                }
                let (m, mut ts) = peel_all_exec(next);
                let ghost before = ts@;
                ts.push(t);
                assert(deep(ts@) =~= deep(before).push(t@));
                (m, ts)
            }
        },
    }
}

fn concat_tokens(a: Vec<Vec<char>>, b: Vec<Vec<char>>) -> (r: Vec<Vec<char>>)
    ensures
        deep(r@) == deep(a@) + deep(b@),
{
    let mut out = a;
    let ghost a0 = out@;
    let mut k: usize = 0;
    while k < b.len()
        invariant
            k <= b.len(),
            deep(out@) == deep(a0) + deep(b@).subrange(0, k as int),
        decreases b.len() - k,
    {
        let t = copy_token(&b[k]);
        let ghost before = out@;
        out.push(t);
        assert(deep(out@) =~= deep(before).push(b@[k as int]@));
        assert(deep(b@).subrange(0, k + 1) =~= deep(b@).subrange(0, k as int).push(b@[k as int]@));
        k += 1;
    }
    assert(deep(b@).subrange(0, b.len() as int) =~= deep(b@));
    out
}

/// Reads an inline allergen list (`"Soup, L, G"`, `"Soup L G"`) off the end of `text`.
pub fn extract_inline_allergens(text: &[char]) -> (r: (Vec<char>, Vec<Vec<char>>))
    ensures
        (r.0@, deep(r.1@)) == inline_allergens(text@),
{
    let norm = normalize_chars(text);
    let compact = trim_end_inline_tail(&norm);
    if compact.len() == 0 {
        return (Vec::new(), Vec::new());
    }
    let pieces = split_chars(&compact, ',');
    let parts = norm_nonempty_exec(&pieces);
    if parts.len() < 2 {
        return (compact, Vec::new());
    }
    let suffix_tokens = trailing_tokens_exec(&parts, parts.len());
    assert(deep(parts@).subrange(0, parts.len() as int) =~= deep(parts@));
    if suffix_tokens.len() == 0 {
        return (compact, Vec::new());
    }
    proof {
        lemma_trailing_tokens_len(deep(parts@));
    }
    let keep = parts.len() - suffix_tokens.len();
    let mut head: Vec<Vec<char>> = Vec::new();
    let mut k: usize = 0;
    while k < keep
        invariant
            keep <= parts.len(),
            k <= keep,
            deep(head@) == deep(parts@).subrange(0, k as int),
        decreases keep - k,
    {
        let t = copy_token(&parts[k]);
        let ghost before = head@;
        head.push(t);
        assert(deep(head@) =~= deep(before).push(parts@[k as int]@));
        assert(deep(parts@).subrange(0, k + 1) =~= deep(parts@).subrange(0, k as int).push(parts@[k as int]@));
        assert(deep(head@) =~= deep(parts@).subrange(0, k + 1));
        k += 1;
    }
    let sep = vec![',', ' '];
    assert(sep@ =~= seq![',', ' ']);
    let joined = join_chars(&head, &sep);
    let main = normalize_chars(&joined);
    if main.len() == 0 {
        return (compact, Vec::new());
    }
    let (m, ts) = peel_all_exec(main);
    if m.len() == 0 {
        return (compact, Vec::new());
    }
    let all = concat_tokens(ts, suffix_tokens);
    (m, all)
}

// ---------------------------------------------------------------- the split

/// The main text of a component: normalized, without trailing separators.
pub open spec fn clean_main(main: Seq<char>) -> Seq<char> {
    trim_end_by(normalized(main), main_tail_fn())
}

/// How a menu component splits into main text and allergen suffix
/// `"(A, B, ...)"`: trailing parenthesized groups and an inline list at the
/// end are both read, their tokens merged in reading order without
/// case-insensitive repeats.
pub open spec fn component_split(component: Seq<char>) -> (Seq<char>, Seq<char>) {
    let text = normalized(component);
    let (main1, trailing) = trailing_groups(text);
    let (inline_main, inline_tokens) = inline_allergens(main1);
    let main2 = if inline_tokens.len() > 0 { inline_main } else { main1 };
    let tokens = dedupe_upper(inline_tokens + trailing);
    if text.len() == 0 {
        (Seq::empty(), Seq::empty())
    } else if tokens.len() == 0 {
        (clean_main(main2), Seq::empty())
    } else {
        (clean_main(main2), seq!['('] + join(tokens, seq![',', ' ']) + seq![')'])
    }
}

fn clean_main_text(main: &[char]) -> (r: Vec<char>)
    ensures
        r@ == clean_main(main@),
{
    let n = normalize_chars(main);
    trim_end_main_tail(&n)
}

/// Splits a menu component into main text and allergen suffix (as character vectors).
pub fn split_component_chars(component: &[char]) -> (r: (Vec<char>, Vec<char>))
    ensures
        (r.0@, r.1@) == component_split(component@),
{
    let text = normalize_chars(component);
    if text.len() == 0 {
        return (Vec::new(), Vec::new());
    }
    let (mut main, trailing_group_tokens) = extract_trailing_parenthesized_allergens(text);
    let (inline_main, inline_tokens) = extract_inline_allergens(&main);
    if inline_tokens.len() > 0 {
        main = inline_main;
    }
    let merged = concat_tokens(inline_tokens, trailing_group_tokens);
    let tokens = dedupe_tokens(merged);
    let normalized_main = clean_main_text(&main);
    if tokens.len() == 0 {
        return (normalized_main, Vec::new());
    }
    let sep = vec![',', ' '];
    assert(sep@ =~= seq![',', ' ']);
    let body = join_chars(&tokens, &sep);
    let mut suffix = vec!['('];
    crate::seqs::extend_chars(&mut suffix, &body);
    suffix.push(')');
    assert(suffix@ =~= seq!['('] + join(deep(tokens@), seq![',', ' ']) + seq![')']);
    (normalized_main, suffix)
}

/// Splits a rendered menu component into main text and allergen suffix.
pub fn split_component_suffix(component: &str) -> (r: (String, String))
    ensures
        (r.0@, r.1@) == component_split(component@),
{
    let chars = str_chars(component);
    let (main, suffix) = split_component_chars(&chars);
    (chars_to_string(&main), chars_to_string(&suffix))
}

}
