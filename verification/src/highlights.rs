//! Where favorite snippets occur in a menu line, and how a drawn row of the
//! line splits into plain and highlighted pieces.
//!
//! Positions are byte offsets into the line's UTF-8 text, as `str` slicing
//! uses them; ranges are half-open `(start, end)` pairs.

use vstd::prelude::*;
use vstd::string::StringSliceAdditionalSpecFns;
use vstd::utf8::{decode_utf8, encode_utf8, is_char_boundary, is_continuation_byte, valid_utf8};
use crate::popup_logic::overlap;
use crate::text::{str_to_lowercase, unicode_lowercase};

verus! {

broadcast use vstd::utf8::encode_utf8_valid_utf8, vstd::utf8::encode_utf8_decode_utf8;

// ---------------------------------------------------------------- cutting text

/// Whether a `str` with the UTF-8 bytes `bytes` can be cut at `a..b`: the
/// range is in order, inside the text, and on character boundaries (what
/// `str::get` checks).
pub open spec fn cuttable(bytes: Seq<u8>, a: int, b: int) -> bool {
    0 <= a <= b <= bytes.len() && is_char_boundary(bytes, a) && is_char_boundary(bytes, b)
}

/// The text held by the bytes `a..b`.
pub open spec fn piece(bytes: Seq<u8>, a: int, b: int) -> Seq<char> {
    decode_utf8(bytes.subrange(a, b))
}

proof fn lemma_boundary_in_prefix(bytes: Seq<u8>, a: int, b: int)
    requires
        valid_utf8(bytes),
        cuttable(bytes, a, b),
    ensures
        valid_utf8(bytes.subrange(0, b)),
        is_char_boundary(bytes.subrange(0, b), a),
{
    vstd::utf8::valid_utf8_split(bytes, b);
    let head = bytes.subrange(0, b);
    if a == b {
        vstd::utf8::is_char_boundary_start_end_of_seq(head);
    } else if a > 0 {
        vstd::utf8::is_char_boundary_iff_not_is_continuation_byte(bytes, a);
        vstd::utf8::is_char_boundary_iff_not_is_continuation_byte(head, a);
        assert(head[a] == bytes[a]);
    }
}

/// The text of `text` at the byte range `a..b`, when it can be cut there
/// (what `text.get(a..b)` gives).
fn can_cut(text: &str, a: usize, b: usize) -> (r: bool)
    ensures
        r == cuttable(text.spec_bytes(), a as int, b as int),
{
    let len = text.as_bytes().len();
    if a > b || b > len {
        return false;
    }
    let at_a = text.is_char_boundary(a);
    let at_b = text.is_char_boundary(b);
    assert(at_a == is_char_boundary(text.spec_bytes(), a as int));
    assert(at_b == is_char_boundary(text.spec_bytes(), b as int));
    at_a && at_b
}

/// The text of `text` at the byte range `a..b`, when it can be cut there
/// (what `text.get(a..b)` gives).
pub fn str_piece(text: &str, a: usize, b: usize) -> (r: Option<String>)
    ensures
        r is Some <==> cuttable(text.spec_bytes(), a as int, b as int),
        r matches Some(s) ==> s@ == piece(text.spec_bytes(), a as int, b as int),
{
    if can_cut(text, a, b) {
        proof {
            lemma_boundary_in_prefix(text.spec_bytes(), a as int, b as int);
        }
        let (head, _) = text.split_at(b);
        let (_, middle) = head.split_at(a);
        let s = middle.to_owned();
        assert(middle.spec_bytes() =~= text.spec_bytes().subrange(a as int, b as int));
        Some(s)
    } else {
        None
    }
}

// ---------------------------------------------------------------- favorite matches

/// Whether `pat` occurs in `hay` at `p`.
pub open spec fn occurs(hay: Seq<u8>, pat: Seq<u8>, p: int) -> bool {
    0 <= p && p + pat.len() <= hay.len() && hay.subrange(p, p + pat.len()) == pat
}

/// The occurrences of a non-empty `pat` in `hay` found left to right from
/// `from`, each search starting where the previous occurrence ended.
pub open spec fn scan(hay: Seq<u8>, pat: Seq<u8>, from: int) -> Seq<(int, int)>
    decreases hay.len() - from,
{
    if pat.len() == 0 || from < 0 || from >= hay.len() {
        Seq::empty()
    } else if occurs(hay, pat, from) {
        seq![(from, from + pat.len())] + scan(hay, pat, from + pat.len())
    } else {
        scan(hay, pat, from + 1)
    }
}

/// The ranges that the text (bytes `text`) can be cut at, in order.
pub open spec fn cut_ok(text: Seq<u8>, ms: Seq<(int, int)>) -> Seq<(int, int)>
    decreases ms.len(),
{
    if ms.len() == 0 {
        Seq::empty()
    } else {
        let rest = cut_ok(text, ms.drop_first());
        if cuttable(text, ms[0].0, ms[0].1) { seq![ms[0]] + rest } else { rest }
    }
}

/// The candidate ranges of all snippets, snippet by snippet: where each
/// occurs in the lower-cased text, kept where the original text can be cut.
pub open spec fn candidates(text: Seq<u8>, lower: Seq<u8>, pats: Seq<Seq<u8>>) -> Seq<(int, int)>
    decreases pats.len(),
{
    if pats.len() == 0 {
        Seq::empty()
    } else {
        candidates(text, lower, pats.drop_last()) + cut_ok(text, scan(lower, pats.last(), 0))
    }
}

/// The length of a range (zero when it is reversed).
pub open spec fn span(r: (int, int)) -> int {
    if r.1 >= r.0 { r.1 - r.0 } else { 0 }
}

/// Whether `a` goes strictly before `b`: by start when `by_start`, else
/// longer first and, among equally long ones, by start.
pub open spec fn precedes(by_start: bool, a: (int, int), b: (int, int)) -> bool {
    if by_start {
        a.0 < b.0
    } else {
        span(a) > span(b) || (span(a) == span(b) && a.0 < b.0)
    }
}

/// Where `e` is inserted into `s`: before the first entry it precedes.
pub open spec fn slot(s: Seq<(int, int)>, e: (int, int), by_start: bool) -> int
    decreases s.len(),
{
    if s.len() == 0 {
        0
    } else if precedes(by_start, e, s[0]) {
        0
    } else {
        1 + slot(s.drop_first(), e, by_start)
    }
}

/// The ranges in order (what a stable sort gives: entries that neither
/// precedes keep their order).
pub open spec fn ordered(s: Seq<(int, int)>, by_start: bool) -> Seq<(int, int)>
    decreases s.len(),
{
    if s.len() == 0 {
        s
    } else {
        let p = ordered(s.drop_last(), by_start);
        p.insert(slot(p, s.last(), by_start), s.last())
    }
}

/// Whether two ranges share a position.
pub open spec fn overlap_int(a: (int, int), b: (int, int)) -> bool {
    (if a.0 >= b.0 { a.0 } else { b.0 }) < (if a.1 <= b.1 { a.1 } else { b.1 })
}

/// Whether `r` shares a position with one of `kept`.
pub open spec fn overlaps_any(kept: Seq<(int, int)>, r: (int, int)) -> bool {
    exists|i: int| 0 <= i < kept.len() && overlap_int(#[trigger] kept[i], r)
}

/// The ranges taken in order, each kept unless it overlaps one kept before.
pub open spec fn greedy(s: Seq<(int, int)>) -> Seq<(int, int)>
    decreases s.len(),
{
    if s.len() == 0 {
        Seq::empty()
    } else {
        let k = greedy(s.drop_last());
        if overlaps_any(k, s.last()) { k } else { k.push(s.last()) }
    }
}

/// Where favorite snippets (already in lower case) are highlighted in a
/// text: their occurrences in the lower-cased text that the text can be cut
/// at; longer matches win over the ones they overlap, then earlier ones; the
/// winners in text order. Nothing for an empty text or no snippets.
pub open spec fn favorite_ranges(text: Seq<char>, snippets: Seq<Seq<char>>) -> Seq<(int, int)> {
    if text.len() == 0 || snippets.len() == 0 {
        Seq::empty()
    } else {
        let pats = snippets.map_values(|s: Seq<char>| encode_utf8(s));
        let found = candidates(encode_utf8(text), encode_utf8(unicode_lowercase(text)), pats);
        ordered(greedy(ordered(found, false)), true)
    }
}

/// Byte ranges as integers.
pub open spec fn ints(v: Seq<(usize, usize)>) -> Seq<(int, int)> {
    v.map_values(|x: (usize, usize)| (x.0 as int, x.1 as int))
}

fn occurs_at(hay: &[u8], pat: &[u8], p: usize) -> (r: bool)
    ensures
        r == occurs(hay@, pat@, p as int),
{
    if pat.len() > hay.len() || p > hay.len() - pat.len() {
        return false;
    }
    let mut k: usize = 0;
    while k < pat.len()
        invariant
            k <= pat.len(),
            p + pat.len() <= hay.len(),
            forall|j: int| 0 <= j < k ==> hay@[p + j] == pat@[j],
        decreases pat.len() - k,
    {
        if hay[p + k] != pat[k] {
            assert(hay@.subrange(p as int, p + pat.len())[k as int] != pat@[k as int]);
            return false;
        }
        k += 1;
    }
    assert(hay@.subrange(p as int, p + pat.len()) =~= pat@);
    true
}

proof fn lemma_cut_ok_cons(text: Seq<u8>, x: (int, int), rest: Seq<(int, int)>)
    ensures
        cut_ok(text, seq![x] + rest) == (if cuttable(text, x.0, x.1) { seq![x] + cut_ok(text, rest) } else { cut_ok(text, rest) }),
{
    assert((seq![x] + rest).drop_first() =~= rest);
}

/// Appends the ranges where `pat` occurs in the lower-cased bytes and the
/// text can be cut.
fn push_snippet_matches(out: &mut Vec<(usize, usize)>, text: &str, lower: &[u8], pat: &[u8])
    ensures
        ints(final(out)@) == ints(old(out)@) + cut_ok(text.spec_bytes(), scan(lower@, pat@, 0)),
{
    let ghost t = text.spec_bytes();
    let ghost start = ints(out@);
    if pat.len() == 0 {
        assert(scan(lower@, pat@, 0) =~= Seq::<(int, int)>::empty());
        return;
    }
    let mut pos: usize = 0;
    while pos < lower.len()
        invariant
            pat@.len() > 0,
            t == text.spec_bytes(),
            ints(out@) + cut_ok(t, scan(lower@, pat@, pos as int)) == start + cut_ok(t, scan(lower@, pat@, 0)),
        decreases lower.len() - pos,
    {
        let ghost before = ints(out@);
        if occurs_at(lower, pat, pos) {
            let end = pos + pat.len();
            proof {
                lemma_cut_ok_cons(t, (pos as int, end as int), scan(lower@, pat@, end as int));
            }
            if can_cut(text, pos, end) {
                out.push((pos, end));
                assert(ints(out@) =~= before.push((pos as int, end as int)));
                assert(before.push((pos as int, end as int)) + cut_ok(t, scan(lower@, pat@, end as int))
                    =~= before + (seq![(pos as int, end as int)] + cut_ok(t, scan(lower@, pat@, end as int))));
            }
            pos = end;
        } else {
            pos += 1;
        }
    }
}

fn precedes_exec(by_start: bool, a: (usize, usize), b: (usize, usize)) -> (r: bool)
    ensures
        r == precedes(by_start, (a.0 as int, a.1 as int), (b.0 as int, b.1 as int)),
{
    if by_start {
        a.0 < b.0
    } else {
        let len_a = if a.1 >= a.0 { a.1 - a.0 } else { 0 };
        let len_b = if b.1 >= b.0 { b.1 - b.0 } else { 0 };
        len_a > len_b || (len_a == len_b && a.0 < b.0)
    }
}

proof fn lemma_slot_at(s: Seq<(int, int)>, e: (int, int), by_start: bool, j: int)
    requires
        0 <= j <= s.len(),
        forall|k: int| 0 <= k < j ==> !precedes(by_start, e, #[trigger] s[k]),
        j == s.len() || precedes(by_start, e, s[j]),
    ensures
        slot(s, e, by_start) == j,
    decreases j,
{
    if j > 0 {
        assert(!precedes(by_start, e, s[0]));
        let t = s.drop_first();
        assert forall|k: int| 0 <= k < j - 1 implies !precedes(by_start, e, #[trigger] t[k]) by {
            assert(t[k] == s[k + 1]);
        }
        if j < s.len() {
            assert(t[j - 1] == s[j]);
        }
        lemma_slot_at(t, e, by_start, j - 1);
    }
}

/// The ranges in order, by start or by length and start.
fn sort_ranges(v: &Vec<(usize, usize)>, by_start: bool) -> (r: Vec<(usize, usize)>)
    ensures
        ints(r@) == ordered(ints(v@), by_start),
{
    let mut out: Vec<(usize, usize)> = Vec::new();
    let mut i: usize = 0;
    while i < v.len()
        invariant
            i <= v.len(),
            ints(out@) == ordered(ints(v@).subrange(0, i as int), by_start),
        decreases v.len() - i,
    {
        let e = v[i];
        let mut j: usize = 0;
        while j < out.len() && !precedes_exec(by_start, e, out[j])
            invariant
                j <= out.len(),
                forall|k: int| 0 <= k < j ==> !precedes(by_start, (e.0 as int, e.1 as int), #[trigger] ints(out@)[k]),
            decreases out.len() - j,
        {
            j += 1;
        }
        let ghost before = ints(out@);
        proof {
            lemma_slot_at(before, (e.0 as int, e.1 as int), by_start, j as int);
            let pre = ints(v@).subrange(0, i + 1);
            assert(pre.drop_last() =~= ints(v@).subrange(0, i as int));
            assert(pre.last() == (e.0 as int, e.1 as int));
        }
        out.insert(j, e);
        assert(ints(out@) =~= before.insert(j as int, (e.0 as int, e.1 as int)));
        i += 1;
    }
    assert(ints(v@).subrange(0, v.len() as int) =~= ints(v@));
    out
}

/// The ranges taken in order, each kept unless it overlaps one kept before.
fn keep_disjoint(v: &Vec<(usize, usize)>) -> (r: Vec<(usize, usize)>)
    ensures
        ints(r@) == greedy(ints(v@)),
{
    let mut kept: Vec<(usize, usize)> = Vec::new();
    let mut i: usize = 0;
    while i < v.len()
        invariant
            i <= v.len(),
            ints(kept@) == greedy(ints(v@).subrange(0, i as int)),
        decreases v.len() - i,
    {
        let r = v[i];
        let ghost ri = (r.0 as int, r.1 as int);
        let mut any = false;
        let mut j: usize = 0;
        while j < kept.len()
            invariant
                j <= kept.len(),
                ri == (r.0 as int, r.1 as int),
                any == exists|k: int| 0 <= k < j && overlap_int(#[trigger] ints(kept@)[k], ri),
            decreases kept.len() - j,
        {
            let o = crate::popup_logic::ranges_overlap(kept[j], r);
            assert(ints(kept@)[j as int] == (kept@[j as int].0 as int, kept@[j as int].1 as int));
            assert(o == overlap_int(ints(kept@)[j as int], ri));
            if o {
                any = true;
            }
            proof {
                if any && !o {
                    let k0 = choose|k: int| 0 <= k < j && overlap_int(#[trigger] ints(kept@)[k], ri);
                    assert(0 <= k0 < j + 1 && overlap_int(ints(kept@)[k0], ri));
                }
                if o {
                    assert(0 <= j < j + 1 && overlap_int(ints(kept@)[j as int], ri));
                }
            }
            j += 1;
        }
        proof {
            let pre = ints(v@).subrange(0, i + 1);
            assert(pre.drop_last() =~= ints(v@).subrange(0, i as int));
            assert(pre.last() == ri);
        }
        if !any {
            let ghost before = ints(kept@);
            kept.push(r);
            assert(ints(kept@) =~= before.push(ri));
        }
        i += 1;
    }
    assert(ints(v@).subrange(0, v.len() as int) =~= ints(v@));
    kept
}

/// Where the favorite snippets (already in lower case) are highlighted in
/// `text`, as byte ranges in text order.
pub fn favorite_match_ranges(text: &str, snippets_lower: &Vec<String>) -> (r: Vec<(usize, usize)>)
    ensures
        ints(r@) == favorite_ranges(text@, snippets_lower@.map_values(|s: String| s@)),
{
    let ghost snippets = snippets_lower@.map_values(|s: String| s@);
    if text.as_bytes().len() == 0 || snippets_lower.len() == 0 {
        proof {
            if text@.len() > 0 {
                assert(encode_utf8(text@).len() > 0);
            }
        }
        let none: Vec<(usize, usize)> = Vec::new();
        assert(ints(none@) =~= Seq::<(int, int)>::empty());
        return none;
    }
    let lower = str_to_lowercase(text);
    let lower_bytes = lower.as_str().as_bytes();
    let ghost pats = snippets.map_values(|s: Seq<char>| encode_utf8(s));
    let mut found: Vec<(usize, usize)> = Vec::new();
    let mut i: usize = 0;
    while i < snippets_lower.len()
        invariant
            i <= snippets_lower.len(),
            snippets == snippets_lower@.map_values(|s: String| s@),
            pats == snippets.map_values(|s: Seq<char>| encode_utf8(s)),
            lower_bytes@ == encode_utf8(unicode_lowercase(text@)),
            ints(found@) == candidates(encode_utf8(text@), lower_bytes@, pats.subrange(0, i as int)),
        decreases snippets_lower.len() - i,
    {
        let pat = snippets_lower[i].as_str().as_bytes();
        push_snippet_matches(&mut found, text, lower_bytes, pat);
        proof {
            let pre = pats.subrange(0, i + 1);
            assert(pre.drop_last() =~= pats.subrange(0, i as int));
            assert(pre.last() == pat@);
        }
        i += 1;
    }
    assert(pats.subrange(0, snippets_lower.len() as int) =~= pats);
    let by_priority = sort_ranges(&found, false);
    let kept = keep_disjoint(&by_priority);
    sort_ranges(&kept, true)
}

// ---------------------------------------------------------------- row segments

/// The plain and highlighted pieces of the row `row_start..row_end` before
/// its tail, and where the last highlight ended: each range is clipped to
/// the row; an empty clip adds nothing; otherwise the plain text from the
/// cursor up to the clip (when there is some and it can be cut) and the
/// clipped highlight (when it can be cut) are added, and the cursor moves to
/// the clip's end.
pub open spec fn row_pieces(bytes: Seq<u8>, row_start: int, row_end: int, ranges: Seq<(int, int)>) -> (Seq<(Seq<char>, bool)>, int)
    decreases ranges.len(),
{
    if ranges.len() == 0 {
        (Seq::empty(), row_start)
    } else {
        let (out, cursor) = row_pieces(bytes, row_start, row_end, ranges.drop_last());
        let r = ranges.last();
        let os = if r.0 >= row_start { r.0 } else { row_start };
        let oe = if r.1 <= row_end { r.1 } else { row_end };
        if os >= oe {
            (out, cursor)
        } else {
            let out1 = if cursor < os && cuttable(bytes, cursor, os) { out.push((piece(bytes, cursor, os), false)) } else { out };
            let out2 = if cuttable(bytes, os, oe) { out1.push((piece(bytes, os, oe), true)) } else { out1 };
            (out2, oe)
        }
    }
}

/// The pieces a drawn row of a text is painted in: one empty plain piece
/// when the row cannot be cut from the text; else the row's pieces, the
/// plain rest after the last highlight, and the whole row as one plain piece
/// when that leaves nothing.
pub open spec fn row_segments(bytes: Seq<u8>, row_start: int, row_end: int, ranges: Seq<(int, int)>) -> Seq<(Seq<char>, bool)> {
    if !cuttable(bytes, row_start, row_end) {
        seq![(Seq::<char>::empty(), false)]
    } else {
        let (out, cursor) = row_pieces(bytes, row_start, row_end, ranges);
        let out2 = if cursor < row_end && cuttable(bytes, cursor, row_end) {
            out.push((piece(bytes, cursor, row_end), false))
        } else {
            out
        };
        if out2.len() == 0 { seq![(piece(bytes, row_start, row_end), false)] } else { out2 }
    }
}

/// The plain values of painted pieces.
pub open spec fn pieces_view(v: Seq<(String, bool)>) -> Seq<(Seq<char>, bool)> {
    v.map_values(|x: (String, bool)| (x.0@, x.1))
}

fn push_piece(out: &mut Vec<(String, bool)>, text: String, highlighted: bool)
    ensures
        pieces_view(final(out)@) == pieces_view(old(out)@).push((text@, highlighted)),
{
    let ghost before = pieces_view(out@);
    let ghost t = text@;
    out.push((text, highlighted));
    assert(pieces_view(out@) =~= before.push((t, highlighted)));
}

/// The pieces the row `row_start..row_end` of `full_text` is painted in,
/// given the highlighted byte ranges of the text.
pub fn segments_for_row(full_text: &str, row_start: usize, row_end: usize, ranges: &Vec<(usize, usize)>) -> (r: Vec<(String, bool)>)
    ensures
        pieces_view(r@) == row_segments(full_text.spec_bytes(), row_start as int, row_end as int, ints(ranges@)),
{
    let ghost bytes = full_text.spec_bytes();
    let row_slice = match str_piece(full_text, row_start, row_end) {
        Some(s) => s,
        None => {
            let mut only: Vec<(String, bool)> = Vec::new();
            push_piece(&mut only, String::new(), false);
            assert(pieces_view(only@) =~= seq![(Seq::<char>::empty(), false)]);
            return only;
        },
    };
    let mut out: Vec<(String, bool)> = Vec::new();
    let mut cursor = row_start;
    let mut i: usize = 0;
    assert(pieces_view(out@) =~= Seq::<(Seq<char>, bool)>::empty());
    while i < ranges.len()
        invariant
            i <= ranges.len(),
            bytes == full_text.spec_bytes(),
            (pieces_view(out@), cursor as int) == row_pieces(bytes, row_start as int, row_end as int, ints(ranges@).subrange(0, i as int)),
        decreases ranges.len() - i,
    {
        let (start, end) = ranges[i];
        proof {
            let pre = ints(ranges@).subrange(0, i + 1);
            assert(pre.drop_last() =~= ints(ranges@).subrange(0, i as int));
            assert(pre.last() == (start as int, end as int));
        }
        let overlap_start = if start >= row_start { start } else { row_start };
        let overlap_end = if end <= row_end { end } else { row_end };
        if overlap_start < overlap_end {
            if cursor < overlap_start {
                if let Some(normal) = str_piece(full_text, cursor, overlap_start) {
                    push_piece(&mut out, normal, false);
                }
            }
            if let Some(highlight) = str_piece(full_text, overlap_start, overlap_end) {
                push_piece(&mut out, highlight, true);
            }
            cursor = overlap_end;
        }
        i += 1;
    }
    assert(ints(ranges@).subrange(0, ranges.len() as int) =~= ints(ranges@));
    if cursor < row_end {
        if let Some(rest) = str_piece(full_text, cursor, row_end) {
            push_piece(&mut out, rest, false);
        }
    }
    if out.len() == 0 {
        push_piece(&mut out, row_slice, false);
        assert(pieces_view(out@) =~= seq![(piece(bytes, row_start as int, row_end as int), false)]);
    }
    out
}

// ---------------------------------------------------------------- facts about the ranges

/// Every range starts before it ends.
pub open spec fn all_nonempty(s: Seq<(int, int)>) -> bool {
    forall|i: int| 0 <= i < s.len() ==> (#[trigger] s[i]).0 < s[i].1
}

/// No two entries at different places share a position.
pub open spec fn all_disjoint(s: Seq<(int, int)>) -> bool {
    forall|i: int, j: int| 0 <= i < s.len() && 0 <= j < s.len() && i != j ==> !overlap_int(#[trigger] s[i], #[trigger] s[j])
}

/// Starts never decrease along the sequence.
pub open spec fn starts_sorted(s: Seq<(int, int)>) -> bool {
    forall|i: int, j: int| 0 <= i < j < s.len() ==> (#[trigger] s[i]).0 <= (#[trigger] s[j]).0
}

/// Every entry of `a` is an entry of `b`.
pub open spec fn within(a: Seq<(int, int)>, b: Seq<(int, int)>) -> bool {
    forall|i: int| 0 <= i < a.len() ==> exists|j: int| 0 <= j < b.len() && b[j] == #[trigger] a[i]
}

pub proof fn lemma_scan_nonempty(hay: Seq<u8>, pat: Seq<u8>, from: int)
    ensures
        all_nonempty(scan(hay, pat, from)),
    decreases hay.len() - from,
{
    if !(pat.len() == 0 || from < 0 || from >= hay.len()) {
        if occurs(hay, pat, from) {
            lemma_scan_nonempty(hay, pat, from + pat.len());
            let rest = scan(hay, pat, from + pat.len());
            let all = seq![(from, from + pat.len())] + rest;
            assert forall|i: int| 0 <= i < all.len() implies (#[trigger] all[i]).0 < all[i].1 by {
                if i > 0 {
                    assert(all[i] == rest[i - 1]);
                }
            }
        } else {
            lemma_scan_nonempty(hay, pat, from + 1);
        }
    }
}

pub proof fn lemma_cut_ok_nonempty(text: Seq<u8>, ms: Seq<(int, int)>)
    requires
        all_nonempty(ms),
    ensures
        all_nonempty(cut_ok(text, ms)),
    decreases ms.len(),
{
    if ms.len() > 0 {
        let t = ms.drop_first();
        assert forall|i: int| 0 <= i < t.len() implies (#[trigger] t[i]).0 < t[i].1 by {
            assert(t[i] == ms[i + 1]);
        }
        lemma_cut_ok_nonempty(text, t);
        let rest = cut_ok(text, t);
        if cuttable(text, ms[0].0, ms[0].1) {
            let all = seq![ms[0]] + rest;
            assert forall|i: int| 0 <= i < all.len() implies (#[trigger] all[i]).0 < all[i].1 by {
                if i > 0 {
                    assert(all[i] == rest[i - 1]);
                }
            }
        }
    }
}

pub proof fn lemma_candidates_nonempty(text: Seq<u8>, lower: Seq<u8>, pats: Seq<Seq<u8>>)
    ensures
        all_nonempty(candidates(text, lower, pats)),
    decreases pats.len(),
{
    if pats.len() > 0 {
        lemma_candidates_nonempty(text, lower, pats.drop_last());
        lemma_scan_nonempty(lower, pats.last(), 0);
        lemma_cut_ok_nonempty(text, scan(lower, pats.last(), 0));
        let a = candidates(text, lower, pats.drop_last());
        let b = cut_ok(text, scan(lower, pats.last(), 0));
        assert forall|i: int| 0 <= i < (a + b).len() implies (#[trigger] (a + b)[i]).0 < (a + b)[i].1 by {
            if i < a.len() {
                assert((a + b)[i] == a[i]);
            } else {
                assert((a + b)[i] == b[i - a.len()]);
            }
        }
    }
}

proof fn lemma_slot(s: Seq<(int, int)>, e: (int, int), by_start: bool)
    ensures
        0 <= slot(s, e, by_start) <= s.len(),
        forall|m: int| 0 <= m < slot(s, e, by_start) ==> !precedes(by_start, e, #[trigger] s[m]),
        slot(s, e, by_start) < s.len() ==> precedes(by_start, e, s[slot(s, e, by_start)]),
    decreases s.len(),
{
    if s.len() > 0 && !precedes(by_start, e, s[0]) {
        let t = s.drop_first();
        lemma_slot(t, e, by_start);
        assert forall|m: int| 0 <= m < slot(s, e, by_start) implies !precedes(by_start, e, #[trigger] s[m]) by {
            if m > 0 {
                assert(s[m] == t[m - 1]);
            }
        }
        if slot(s, e, by_start) < s.len() {
            assert(s[slot(s, e, by_start)] == t[slot(t, e, by_start)]);
        }
    }
}

/// What insertion sorting keeps: the length, the entries, non-empty and
/// disjoint ranges, and (by start) the start order.
pub proof fn lemma_ordered(s: Seq<(int, int)>, by_start: bool)
    ensures
        ordered(s, by_start).len() == s.len(),
        within(ordered(s, by_start), s),
        all_nonempty(s) ==> all_nonempty(ordered(s, by_start)),
        all_disjoint(s) ==> all_disjoint(ordered(s, by_start)),
        by_start ==> starts_sorted(ordered(s, by_start)),
    decreases s.len(),
{
    if s.len() > 0 {
        let d = s.drop_last();
        let e = s.last();
        lemma_ordered(d, by_start);
        let p = ordered(d, by_start);
        let k = slot(p, e, by_start);
        lemma_slot(p, e, by_start);
        let q = p.insert(k, e);
        assert(q == ordered(s, by_start));
        assert forall|m: int| 0 <= m < q.len() implies
            (m < k ==> q[m] == p[m]) && (m == k ==> q[m] == e) && (m > k ==> q[m] == p[m - 1]) by {}
        assert forall|m: int| 0 <= m < q.len() implies exists|j: int| 0 <= j < s.len() && s[j] == #[trigger] q[m] by {
            if m == k {
                assert(s[s.len() - 1] == q[m]);
            } else {
                let pm = if m < k { m } else { m - 1 };
                let j = choose|j: int| 0 <= j < d.len() && d[j] == p[pm];
                assert(s[j] == q[m]);
            }
        }
        if all_nonempty(s) {
            assert forall|i: int| 0 <= i < d.len() implies (#[trigger] d[i]).0 < d[i].1 by {
                assert(d[i] == s[i]);
            }
            assert forall|m: int| 0 <= m < q.len() implies (#[trigger] q[m]).0 < q[m].1 by {
                if m != k {
                    let pm = if m < k { m } else { m - 1 };
                    assert(q[m] == p[pm]);
                }
            }
        }
        if all_disjoint(s) {
            assert forall|i: int, j: int| 0 <= i < d.len() && 0 <= j < d.len() && i != j implies
                !overlap_int(#[trigger] d[i], #[trigger] d[j]) by {
                assert(d[i] == s[i] && d[j] == s[j]);
            }
            assert forall|m: int| 0 <= m < p.len() implies !overlap_int(#[trigger] p[m], e) && !overlap_int(e, p[m]) by {
                let j = choose|j: int| 0 <= j < d.len() && d[j] == p[m];
                assert(s[j] == p[m]);
                assert(!overlap_int(s[j], s[s.len() - 1]));
                assert(!overlap_int(s[s.len() - 1], s[j]));
            }
            assert forall|a: int, b: int| 0 <= a < q.len() && 0 <= b < q.len() && a != b implies
                !overlap_int(#[trigger] q[a], #[trigger] q[b]) by {
                let pa = if a < k { a } else { a - 1 };
                let pb = if b < k { b } else { b - 1 };
                if a != k && b != k {
                    assert(q[a] == p[pa] && q[b] == p[pb]);
                } else if a == k {
                    assert(q[b] == p[pb]);
                } else {
                    assert(q[a] == p[pa]);
                }
            }
        }
        if by_start {
            assert forall|a: int, b: int| 0 <= a < b < q.len() implies (#[trigger] q[a]).0 <= (#[trigger] q[b]).0 by {
                let pa = if a < k { a } else { a - 1 };
                let pb = if b < k { b } else { b - 1 };
                if a != k && b != k {
                    assert(q[a] == p[pa] && q[b] == p[pb]);
                } else if a == k {
                    assert(q[b] == p[pb]);
                    assert(precedes(true, e, p[k]));
                    assert(p[k].0 <= p[pb].0 || pb == k);
                } else {
                    assert(q[a] == p[pa]);
                    assert(!precedes(true, e, p[pa]));
                }
            }
        }
    }
}

/// What the greedy pass keeps: entries of its input, no two overlapping.
pub proof fn lemma_greedy(s: Seq<(int, int)>)
    ensures
        within(greedy(s), s),
        all_disjoint(greedy(s)),
    decreases s.len(),
{
    if s.len() > 0 {
        let d = s.drop_last();
        lemma_greedy(d);
        let k = greedy(d);
        assert forall|m: int| 0 <= m < k.len() implies exists|j: int| 0 <= j < s.len() && s[j] == #[trigger] k[m] by {
            let j = choose|j: int| 0 <= j < d.len() && d[j] == k[m];
            assert(s[j] == k[m]);
        }
        if !overlaps_any(k, s.last()) {
            let q = k.push(s.last());
            assert forall|m: int| 0 <= m < q.len() implies exists|j: int| 0 <= j < s.len() && s[j] == #[trigger] q[m] by {
                if m < k.len() {
                    assert(q[m] == k[m]);
                } else {
                    assert(s[s.len() - 1] == q[m]);
                }
            }
            assert forall|a: int, b: int| 0 <= a < q.len() && 0 <= b < q.len() && a != b implies
                !overlap_int(#[trigger] q[a], #[trigger] q[b]) by {
                if a < k.len() && b < k.len() {
                    assert(q[a] == k[a] && q[b] == k[b]);
                } else if a < k.len() {
                    assert(q[a] == k[a]);
                    assert(!overlap_int(k[a], s.last()));
                } else {
                    assert(q[b] == k[b]);
                    assert(!overlap_int(k[b], s.last()));
                }
            }
        }
    }
}

// ---------------------------------------------------------------- words

/// The UTF-8 bytes of two texts one after the other are the bytes of each.
pub proof fn lemma_encode_concat(a: Seq<char>, b: Seq<char>)
    ensures
        encode_utf8(a + b) == encode_utf8(a) + encode_utf8(b),
    decreases a.len(),
{
    if a.len() == 0 {
        assert(a + b =~= b);
        assert(encode_utf8(a) =~= Seq::<u8>::empty());
        assert(encode_utf8(a) + encode_utf8(b) =~= encode_utf8(b));
    } else {
        lemma_encode_concat(a.drop_first(), b);
        assert((a + b).drop_first() =~= a.drop_first() + b);
        assert((a + b)[0] == a[0]);
        assert(encode_utf8(a + b) =~= encode_utf8(a) + encode_utf8(b));
    }
}

/// The UTF-8 length of a char (what `char::len_utf8` gives).
pub(crate) fn utf8_width(c: char) -> (r: usize)
    ensures
        r == vstd::utf8::encode_scalar(c as u32).len(),
{
    proof {
        vstd::utf8::char_is_scalar(c);
    }
    let v = c as u32;
    if v <= 0x7F {
        1
    } else if v <= 0x7FF {
        2
    } else if v <= 0xFFFF {
        3
    } else {
        4
    }
}

/// A word of a text as byte offsets.
#[derive(Clone, Copy, Debug, PartialEq, Eq, Structural)]
pub struct WordBounds {
    pub start: usize,
    pub end: usize,
}

/// The words of `s` ended so far, as byte ranges, and where the word being
/// read started (none between words): a word starts at a character that is
/// no whitespace and ends at the next whitespace character.
pub open spec fn word_scan(s: Seq<char>) -> (Seq<(int, int)>, Option<int>)
    decreases s.len(),
{
    if s.len() == 0 {
        (Seq::empty(), None)
    } else {
        let (done, start) = word_scan(s.drop_last());
        let at = encode_utf8(s.drop_last()).len() as int;
        if crate::text::unicode_white_space(s.last()) {
            match start {
                Some(a) => (done.push((a, at)), None),
                None => (done, None),
            }
        } else {
            match start {
                Some(a) => (done, Some(a)),
                None => (done, Some(at)),
            }
        }
    }
}

/// The byte ranges of the whitespace-separated words of a text, in order.
pub open spec fn word_spans(s: Seq<char>) -> Seq<(int, int)> {
    let (done, start) = word_scan(s);
    match start {
        Some(a) => done.push((a, encode_utf8(s).len() as int)),
        None => done,
    }
}

/// Words as integer ranges.
pub open spec fn word_ints(v: Seq<WordBounds>) -> Seq<(int, int)> {
    v.map_values(|w: WordBounds| (w.start as int, w.end as int))
}

/// The byte ranges of the whitespace-separated words of `text`.
pub fn word_bounds(text: &str) -> (r: Vec<WordBounds>)
    ensures
        word_ints(r@) == word_spans(text@),
{
    let chars = crate::text::str_chars(text);
    let total = text.as_bytes().len();
    let mut out: Vec<WordBounds> = Vec::new();
    let mut start: Option<usize> = None;
    let mut offset: usize = 0;
    let mut i: usize = 0;
    while i < chars.len()
        invariant
            i <= chars.len(),
            chars@ == text@,
            total == encode_utf8(text@).len(),
            offset == encode_utf8(text@.take(i as int)).len(),
            (word_ints(out@), match start { Some(a) => Some(a as int), None => None }) == word_scan(text@.take(i as int)),
        decreases chars.len() - i,
    {
        let c = chars[i];
        let width = utf8_width(c);
        proof {
            let pre = text@.take(i + 1);
            assert(pre.drop_last() =~= text@.take(i as int));
            assert(pre.last() == c);
            assert(pre =~= text@.take(i as int) + seq![c]);
            lemma_encode_concat(text@.take(i as int), seq![c]);
            assert(encode_utf8(seq![c]) =~= vstd::utf8::encode_scalar(c as u32)) by {
                assert(seq![c].drop_first() =~= Seq::<char>::empty());
                assert(seq![c][0] == c);
                assert(encode_utf8(Seq::<char>::empty()) =~= Seq::<u8>::empty());
                assert(encode_utf8(seq![c]) == vstd::utf8::encode_scalar(c as u32) + encode_utf8(seq![c].drop_first()));
            }
            assert(text@ =~= pre + text@.skip(i + 1));
            lemma_encode_concat(pre, text@.skip(i + 1));
        }
        if crate::text::char_is_whitespace(c) {
            if let Some(s) = start {
                let ghost before = word_ints(out@);
                out.push(WordBounds { start: s, end: offset });
                assert(word_ints(out@) =~= before.push((s as int, offset as int)));
                start = None;
            }
        } else if start.is_none() {
            start = Some(offset);
        }
        offset = offset + width;
        i += 1;
    }
    assert(text@.take(chars.len() as int) =~= text@);
    if let Some(s) = start {
        let ghost before = word_ints(out@);
        out.push(WordBounds { start: s, end: total });
        assert(word_ints(out@) =~= before.push((s as int, total as int)));
    }
    out
}

} // verus!
