//! Laying text out in the popup: clipping a line with an ellipsis,
//! wrapping it into rows, and measuring how much room the lines need.
//!
//! Text widths come from the caller, which measures with the window's
//! fonts. Every result is described for any widths the measuring gives;
//! when the measuring is deterministic (the same text always measures the
//! same), the result is described exactly in terms of those widths.

use vstd::prelude::*;
use crate::normalize::{normalize_text, normalized};
use crate::seqs::{trim_end_ws, trim_end_ws_chars};
use crate::highlights::{lemma_encode_concat, utf8_width};
use crate::seqs::slice_chars;
use crate::text::{char_is_whitespace, chars_to_string, str_chars, unicode_white_space};
use vstd::utf8::encode_utf8;
use crate::popup_lines::{segments_view, Line, LineV};
use crate::popup_logic::{flatten_suffix_segments, SelectableBoundary};
use crate::popup_size::LineLayoutMetrics;

verus! {

/// Whether measuring `s` can give `w`.
pub open spec fn measures<F: Fn(&str) -> i32>(m: F, s: Seq<char>, w: i32) -> bool {
    exists|t: &str| t@ == s && #[trigger] call_ensures(m, (t,), w)
}

/// Whether measuring gives each text one width.
pub open spec fn deterministic<F: Fn(&str) -> i32>(m: F) -> bool {
    forall|s: Seq<char>, a: i32, b: i32| #[trigger] measures(m, s, a) && #[trigger] measures(m, s, b) ==> a == b
}

/// The width measuring gives a text (meaningful for a measured text when
/// the measuring is deterministic).
pub open spec fn width_of<F: Fn(&str) -> i32>(m: F, s: Seq<char>) -> int {
    (choose|w: i32| measures(m, s, w)) as int
}

/// The widths measuring gives, as a function of the text.
pub open spec fn widths<F: Fn(&str) -> i32>(m: F) -> spec_fn(Seq<char>) -> int {
    |s: Seq<char>| width_of(m, s)
}

/// Whether the measuring can be asked about any text.
pub open spec fn measurable<F: Fn(&str) -> i32>(m: F) -> bool {
    forall|t: &str| #[trigger] call_requires(m, (t,))
}

proof fn lemma_measured<F: Fn(&str) -> i32>(m: F, t: &str, w: i32)
    requires
        call_ensures(m, (t,), w),
        deterministic(m),
    ensures
        width_of(m, t@) == w,
{
    assert(measures(m, t@, w));
    let c = choose|v: i32| measures(m, t@, v);
    assert(measures(m, t@, c));
}

pub(crate) fn measure_text<F: Fn(&str) -> i32>(m: &F, t: &str) -> (w: i32)
    requires
        measurable(*m),
    ensures
        measures(*m, t@, w),
        deterministic(*m) ==> w == width_of(*m, t@),
{
    let w = m(t);
    proof {
        assert(measures(*m, t@, w));
        if deterministic(*m) {
            lemma_measured(*m, t, w);
        }
    }
    w
}

// ---------------------------------------------------------------- clipping

/// The ellipsis a clipped text ends with.
pub open spec fn ellipsis() -> Seq<char> {
    seq!['.', '.', '.']
}

/// How many characters of `clean` are kept before the ellipsis: counting
/// from `k`, up to the first character whose addition (with the ellipsis)
/// is wider than `max_width`.
pub open spec fn kept_chars(clean: Seq<char>, max_width: int, w: spec_fn(Seq<char>) -> int, k: int) -> int
    decreases clean.len() - k,
{
    if k < 0 || k >= clean.len() {
        clean.len() as int
    } else if w(clean.take(k + 1) + ellipsis()) > max_width {
        k
    } else {
        kept_chars(clean, max_width, w, k + 1)
    }
}

/// A text fitted to `max_width` with the widths `w`: the normalized text
/// when it fits; nothing when it is empty or there is no room; the ellipsis
/// alone when not even that fits; else the longest prefix that fits with
/// the ellipsis, trailing whitespace dropped, and the ellipsis.
pub open spec fn fitted(text: Seq<char>, max_width: int, w: spec_fn(Seq<char>) -> int) -> Seq<char> {
    let clean = normalized(text);
    if clean.len() == 0 || max_width <= 0 {
        Seq::empty()
    } else if w(clean) <= max_width {
        clean
    } else if w(ellipsis()) >= max_width {
        ellipsis()
    } else {
        trim_end_ws(clean.take(kept_chars(clean, max_width, w, 0))) + ellipsis()
    }
}

/// A text clipped to `max_width`, ending in an ellipsis when it had to be
/// cut. Whatever the widths: nothing exactly when the text is blank or
/// there is no room, else the text itself, the ellipsis, or a prefix of the
/// text with the ellipsis.
pub fn fit_text_to_width<F: Fn(&str) -> i32>(text: &str, max_width: i32, measure: &F) -> (r: String)
    requires
        measurable(*measure),
    ensures
        r@.len() == 0 <==> (normalized(text@).len() == 0 || max_width <= 0),
        r@.len() > 0 ==> r@ == normalized(text@) || r@ == ellipsis()
            || exists|k: int| 0 <= k <= normalized(text@).len() && r@ == trim_end_ws(normalized(text@).take(k)) + ellipsis(),
        deterministic(*measure) ==> r@ == fitted(text@, max_width as int, widths(*measure)),
{
    let ghost wf = widths(*measure);
    let clean = normalize_text(text);
    let chars = str_chars(clean.as_str());
    if chars.len() == 0 || max_width <= 0 {
        return String::new();
    }
    if measure_text(measure, clean.as_str()) <= max_width {
        return clean;
    }
    let dots = str_chars("...");
    proof {
        reveal_strlit("...");
    }
    assert(dots@ == ellipsis());
    if measure_text(measure, "...") >= max_width {
        return chars_to_string(&dots);
    }
    let mut out: Vec<char> = Vec::new();
    let mut i: usize = 0;
    while i < chars.len()
        invariant
            i <= chars.len(),
            chars@ == normalized(text@),
            dots@ == ellipsis(),
            out@ == chars@.take(i as int),
            measurable(*measure),
            wf == (widths(*measure)),
            deterministic(*measure) ==> kept_chars(chars@, max_width as int, wf, 0) == kept_chars(chars@, max_width as int, wf, i as int),
        ensures
            i <= chars.len(),
            out@ == chars@.take(i as int),
            deterministic(*measure) ==> kept_chars(chars@, max_width as int, wf, 0) == i,
        decreases chars.len() - i,
    {
        let mut candidate = out.clone();
        candidate.push(chars[i]);
        crate::seqs::extend_chars(&mut candidate, &dots);
        assert(candidate@ =~= chars@.take(i + 1) + ellipsis());
        let candidate_text = chars_to_string(&candidate);
        let width = measure_text(measure, candidate_text.as_str());
        if width > max_width {
            assert(deterministic(*measure) ==> wf(chars@.take(i + 1) + ellipsis()) == width);
            break;
        }
        out.push(chars[i]);
        i += 1;
        assert(out@ =~= chars@.take(i as int));
    }
    let mut trimmed = trim_end_ws_chars(&out);
    crate::seqs::extend_chars(&mut trimmed, &dots);
    assert(trimmed@ == trim_end_ws(chars@.take(i as int)) + ellipsis());
    chars_to_string(&trimmed)
}

// ---------------------------------------------------------------- wrapping

/// A row of wrapped text: the text and its byte range in the wrapped text.
pub struct WrappedRow {
    pub text: String,
    pub start: usize,
    pub end: usize,
}

/// The UTF-8 length of a text.
pub open spec fn blen(s: Seq<char>) -> int {
    encode_utf8(s).len() as int
}

/// A row as plain values.
pub open spec fn row_view(r: WrappedRow) -> (Seq<char>, int, int) {
    (r.text@, r.start as int, r.end as int)
}

/// The rows as plain values.
pub open spec fn rows_view(v: Seq<WrappedRow>) -> Seq<(Seq<char>, int, int)> {
    v.map_values(|r: WrappedRow| row_view(r))
}

/// The row holding the characters `p.0..p.1` of `clean`, with their byte
/// offsets.
pub open spec fn piece_row(clean: Seq<char>, p: (int, int)) -> (Seq<char>, int, int) {
    (clean.subrange(p.0, p.1), blen(clean.take(p.0)), blen(clean.take(p.1)))
}

/// The rows of character ranges of `clean`.
pub open spec fn pieces(clean: Seq<char>, spans: Seq<(int, int)>) -> Seq<(Seq<char>, int, int)> {
    spans.map_values(|p: (int, int)| piece_row(clean, p))
}

/// Every range lies within `lo..hi`, in order.
pub open spec fn spans_within(spans: Seq<(int, int)>, lo: int, hi: int) -> bool {
    forall|i: int| 0 <= i < spans.len() ==> lo <= (#[trigger] spans[i]).0 <= spans[i].1 <= hi
}

/// The words read so far (as character ranges) and where the word being
/// read started.
pub open spec fn char_word_scan(s: Seq<char>) -> (Seq<(int, int)>, Option<int>)
    decreases s.len(),
{
    if s.len() == 0 {
        (Seq::empty(), None)
    } else {
        let (done, start) = char_word_scan(s.drop_last());
        let i = s.len() - 1;
        if unicode_white_space(s.last()) {
            match start {
                Some(a) => (done.push((a, i)), None),
                None => (done, None),
            }
        } else {
            match start {
                Some(a) => (done, Some(a)),
                None => (done, Some(i)),
            }
        }
    }
}

/// The whitespace-separated words of a text, as character ranges.
pub open spec fn char_words(s: Seq<char>) -> Seq<(int, int)> {
    let (done, start) = char_word_scan(s);
    match start {
        Some(a) => done.push((a, s.len() as int)),
        None => done,
    }
}

/// Each range ends before the next one starts.
pub open spec fn spans_sorted(spans: Seq<(int, int)>) -> bool {
    forall|i: int, j: int| 0 <= i < j < spans.len() ==> (#[trigger] spans[i]).1 <= (#[trigger] spans[j]).0
}

proof fn lemma_char_word_scan(s: Seq<char>)
    ensures
        spans_within(char_word_scan(s).0, 0, s.len() as int),
        spans_sorted(char_word_scan(s).0),
        forall|i: int| 0 <= i < char_word_scan(s).0.len() ==> (#[trigger] char_word_scan(s).0[i]).0 < char_word_scan(s).0[i].1,
        char_word_scan(s).1 matches Some(a) ==> 0 <= a < s.len() && forall|i: int| 0 <= i < char_word_scan(s).0.len() ==> (#[trigger] char_word_scan(s).0[i]).1 <= a,
    decreases s.len(),
{
    if s.len() > 0 {
        lemma_char_word_scan(s.drop_last());
    }
}

proof fn lemma_char_words(s: Seq<char>)
    ensures
        spans_within(char_words(s), 0, s.len() as int),
        spans_sorted(char_words(s)),
        forall|i: int| 0 <= i < char_words(s).len() ==> (#[trigger] char_words(s)[i]).0 < char_words(s)[i].1,
{
    lemma_char_word_scan(s);
}

fn char_word_bounds(chars: &Vec<char>) -> (r: Vec<(usize, usize)>)
    ensures
        r@.map_values(|p: (usize, usize)| (p.0 as int, p.1 as int)) == char_words(chars@),
        spans_within(char_words(chars@), 0, chars@.len() as int),
        spans_sorted(char_words(chars@)),
        forall|i: int| 0 <= i < char_words(chars@).len() ==> (#[trigger] char_words(chars@)[i]).0 < char_words(chars@)[i].1,
{
    let mut out: Vec<(usize, usize)> = Vec::new();
    let mut start: Option<usize> = None;
    let mut i: usize = 0;
    while i < chars.len()
        invariant
            i <= chars.len(),
            (out@.map_values(|p: (usize, usize)| (p.0 as int, p.1 as int)), match start { Some(a) => Some(a as int), None => None })
                == char_word_scan(chars@.take(i as int)),
        decreases chars.len() - i,
    {
        proof {
            assert(chars@.take(i + 1).drop_last() =~= chars@.take(i as int));
            assert(chars@.take(i + 1).last() == chars@[i as int]);
        }
        let ghost before = out@.map_values(|p: (usize, usize)| (p.0 as int, p.1 as int));
        if char_is_whitespace(chars[i]) {
            if let Some(a) = start {
                out.push((a, i));
                assert(out@.map_values(|p: (usize, usize)| (p.0 as int, p.1 as int)) =~= before.push((a as int, i as int)));
                start = None;
            }
        } else if start.is_none() {
            start = Some(i);
        }
        i += 1;
    }
    assert(chars@.take(chars.len() as int) =~= chars@);
    proof {
        lemma_char_words(chars@);
    }
    if let Some(a) = start {
        let ghost before = out@.map_values(|p: (usize, usize)| (p.0 as int, p.1 as int));
        out.push((a, chars.len()));
        assert(out@.map_values(|p: (usize, usize)| (p.0 as int, p.1 as int)) =~= before.push((a as int, chars.len() as int)));
    }
    out
}

/// Byte offsets of every character position of a text.
pub(crate) fn prefix_offsets(chars: &Vec<char>, total: usize) -> (r: Vec<usize>)
    requires
        total as int == blen(chars@),
    ensures
        r@.len() == chars@.len() + 1,
        forall|k: int| 0 <= k <= chars@.len() ==> #[trigger] r@[k] as int == blen(chars@.take(k)),
{
    let mut out: Vec<usize> = Vec::new();
    out.push(0);
    assert(encode_utf8(chars@.take(0)) =~= Seq::<u8>::empty()) by {
        assert(chars@.take(0) =~= Seq::<char>::empty());
    }
    let mut offset: usize = 0;
    let mut i: usize = 0;
    while i < chars.len()
        invariant
            i <= chars.len(),
            total as int == blen(chars@),
            out@.len() == i + 1,
            offset as int == blen(chars@.take(i as int)),
            forall|k: int| 0 <= k <= i ==> #[trigger] out@[k] as int == blen(chars@.take(k)),
        decreases chars.len() - i,
    {
        let c = chars[i];
        let width = utf8_width(c);
        proof {
            let pre = chars@.take(i + 1);
            assert(pre =~= chars@.take(i as int) + seq![c]);
            lemma_encode_concat(chars@.take(i as int), seq![c]);
            assert(encode_utf8(seq![c]) =~= vstd::utf8::encode_scalar(c as u32)) by {
                assert(seq![c].drop_first() =~= Seq::<char>::empty());
                assert(seq![c][0] == c);
                assert(encode_utf8(Seq::<char>::empty()) =~= Seq::<u8>::empty());
                assert(encode_utf8(seq![c]) == vstd::utf8::encode_scalar(c as u32) + encode_utf8(seq![c].drop_first()));
            }
            assert(chars@ =~= pre + chars@.skip(i + 1));
            lemma_encode_concat(pre, chars@.skip(i + 1));
        }
        offset = offset + width;
        out.push(offset);
        i += 1;
    }
    out
}

fn row_of(chars: &Vec<char>, offsets: &Vec<usize>, a: usize, b: usize) -> (r: WrappedRow)
    requires
        a <= b <= chars.len(),
        offsets@.len() == chars@.len() + 1,
        forall|k: int| 0 <= k <= chars@.len() ==> #[trigger] offsets@[k] as int == blen(chars@.take(k)),
    ensures
        row_view(r) == piece_row(chars@, (a as int, b as int)),
{
    WrappedRow { text: chars_to_string(&slice_chars(chars, a, b)), start: offsets[a], end: offsets[b] }
}

fn text_of(chars: &Vec<char>, a: usize, b: usize) -> (r: String)
    requires
        a <= b <= chars.len(),
    ensures
        r@ == chars@.subrange(a as int, b as int),
{
    chars_to_string(&slice_chars(chars, a, b))
}

/// Splitting the characters `a..j` of a too-long word: the rows made so
/// far and where the row being filled starts (it ends at `j`).
pub open spec fn split_fold(clean: Seq<char>, a: int, j: int, limit: int, w: spec_fn(Seq<char>) -> int) -> (Seq<(int, int)>, int)
    decreases j - a,
{
    if j <= a {
        (Seq::empty(), a)
    } else {
        let (rows, cs) = split_fold(clean, a, j - 1, limit, w);
        if cs < j - 1 && w(clean.subrange(cs, j)) > limit {
            (rows.push((cs, j - 1)), j - 1)
        } else {
            (rows, cs)
        }
    }
}

/// A word too long for a row, cut into rows character by character: a row
/// ends before the character that would make it wider than `limit`.
pub open spec fn split_token(clean: Seq<char>, a: int, b: int, limit: int, w: spec_fn(Seq<char>) -> int) -> Seq<(int, int)> {
    let (rows, cs) = split_fold(clean, a, b, limit, w);
    let all = if cs < b { rows.push((cs, b)) } else { rows };
    if all.len() == 0 { seq![(a, b)] } else { all }
}

/// Every range ends at or before `x`.
pub open spec fn ends_by(spans: Seq<(int, int)>, x: int) -> bool {
    forall|i: int| 0 <= i < spans.len() ==> (#[trigger] spans[i]).1 <= x
}

proof fn lemma_split_fold(clean: Seq<char>, a: int, j: int, limit: int, w: spec_fn(Seq<char>) -> int)
    requires
        a <= j,
    ensures
        spans_within(split_fold(clean, a, j, limit, w).0, a, j),
        spans_sorted(split_fold(clean, a, j, limit, w).0),
        ends_by(split_fold(clean, a, j, limit, w).0, split_fold(clean, a, j, limit, w).1),
        a <= split_fold(clean, a, j, limit, w).1 <= j,
    decreases j - a,
{
    if j > a {
        lemma_split_fold(clean, a, j - 1, limit, w);
    }
}

/// Appends the rows a too-long word `a..b` of the text is cut into, and
/// gives their character ranges.
fn push_split_rows<F: Fn(&str) -> i32>(
    rows: &mut Vec<WrappedRow>,
    chars: &Vec<char>,
    offsets: &Vec<usize>,
    a: usize,
    b: usize,
    limit: i32,
    measure: &F,
) -> (spans: Ghost<Seq<(int, int)>>)
    requires
        a <= b <= chars.len(),
        offsets@.len() == chars@.len() + 1,
        forall|k: int| 0 <= k <= chars@.len() ==> #[trigger] offsets@[k] as int == blen(chars@.take(k)),
        measurable(*measure),
    ensures
        rows_view(final(rows)@) == rows_view(old(rows)@) + pieces(chars@, spans@),
        spans_within(spans@, a as int, b as int),
        spans_sorted(spans@),
        spans@.len() > 0,
        deterministic(*measure) ==> spans@ == split_token(chars@, a as int, b as int, limit as int, widths(*measure)),
{
    let ghost wf = widths(*measure);
    let ghost start_rows = rows_view(rows@);
    let ghost mut made: Seq<(int, int)> = Seq::empty();
    let mut any_row = false;
    let mut cur_start: usize = a;
    let mut j: usize = a;
    while j < b
        invariant
            a <= cur_start <= j <= b <= chars.len(),
            offsets@.len() == chars@.len() + 1,
            forall|k: int| 0 <= k <= chars@.len() ==> #[trigger] offsets@[k] as int == blen(chars@.take(k)),
            measurable(*measure),
            wf == (widths(*measure)),
            rows_view(rows@) == start_rows + pieces(chars@, made),
            spans_within(made, a as int, cur_start as int),
            spans_sorted(made),
            ends_by(made, cur_start as int),
            any_row <==> made.len() > 0,
            deterministic(*measure) ==> (made, cur_start as int) == split_fold(chars@, a as int, j as int, limit as int, wf),
        decreases b - j,
    {
        if cur_start < j {
            let candidate = text_of(chars, cur_start, j + 1);
            let width = measure_text(measure, candidate.as_str());
            if width > limit {
                let ghost before = rows_view(rows@);
                rows.push(row_of(chars, offsets, cur_start, j));
                proof {
                    assert(rows_view(rows@) =~= before.push(piece_row(chars@, (cur_start as int, j as int))));
                    assert(pieces(chars@, made.push((cur_start as int, j as int))) =~= pieces(chars@, made).push(piece_row(chars@, (cur_start as int, j as int))));
                    lemma_sorted_concat(made, seq![(cur_start as int, j as int)], cur_start as int);
            assert(made.push((cur_start as int, j as int)) =~= made + seq![(cur_start as int, j as int)]);
            made = made.push((cur_start as int, j as int));
                }
                any_row = true;
                cur_start = j;
            }
        }
        j += 1;
    }
    let ghost before = rows_view(rows@);
    if cur_start < b {
        rows.push(row_of(chars, offsets, cur_start, b));
        proof {
            assert(rows_view(rows@) =~= before.push(piece_row(chars@, (cur_start as int, b as int))));
            assert(pieces(chars@, made.push((cur_start as int, b as int))) =~= pieces(chars@, made).push(piece_row(chars@, (cur_start as int, b as int))));
            lemma_sorted_concat(made, seq![(cur_start as int, b as int)], cur_start as int);
            assert(made.push((cur_start as int, b as int)) =~= made + seq![(cur_start as int, b as int)]);
            made = made.push((cur_start as int, b as int));
        }
        any_row = true;
    }
    if !any_row {
        let ghost before2 = rows_view(rows@);
        rows.push(row_of(chars, offsets, a, b));
        proof {
            assert(rows_view(rows@) =~= before2.push(piece_row(chars@, (a as int, b as int))));
            assert(pieces(chars@, seq![(a as int, b as int)]) =~= seq![piece_row(chars@, (a as int, b as int))]);
            assert(pieces(chars@, made) =~= Seq::<(Seq<char>, int, int)>::empty());
            made = seq![(a as int, b as int)];
        }
    }
    Ghost(made)
}


/// One word of the wrapping: the row being filled (`cur`) takes the word
/// when the row with it still fits; else that row is closed, and the word
/// starts a row of its own, or, when even alone it is too wide, is cut.
pub open spec fn wrap_step(
    clean: Seq<char>,
    rows: Seq<(int, int)>,
    cur: Option<(int, int)>,
    word: (int, int),
    limit: int,
    w: spec_fn(Seq<char>) -> int,
) -> (Seq<(int, int)>, Option<(int, int)>) {
    let cs = match cur {
        Some(c) => c.0,
        None => word.0,
    };
    if w(clean.subrange(cs, word.1)) <= limit {
        (rows, Some((cs, word.1)))
    } else {
        let closed = match cur {
            Some(c) => rows.push(c),
            None => rows,
        };
        if w(clean.subrange(word.0, word.1)) <= limit {
            (closed, Some(word))
        } else {
            (closed + split_token(clean, word.0, word.1, limit, w), None)
        }
    }
}

/// The wrapping after the first `k` words.
pub open spec fn wrap_fold(
    clean: Seq<char>,
    words: Seq<(int, int)>,
    k: int,
    limit: int,
    w: spec_fn(Seq<char>) -> int,
) -> (Seq<(int, int)>, Option<(int, int)>)
    decreases k,
{
    if k <= 0 {
        (Seq::empty(), None)
    } else {
        let (rows, cur) = wrap_fold(clean, words, k - 1, limit, w);
        wrap_step(clean, rows, cur, words[k - 1], limit, w)
    }
}

/// The row width used for wrapping: the width asked for, but at least 16.
pub open spec fn wrap_limit(max_width: int) -> int {
    if max_width > 16 { max_width } else { 16 }
}

/// The rows (as character ranges of the normalized text) that `text`
/// wraps into at `max_width` with the widths `w`: none for a blank text;
/// the whole text when it fits or has no words; else word by word, as
/// `wrap_step` says, and the whole text if that gave no row.
pub open spec fn wrap_rows(text: Seq<char>, max_width: int, w: spec_fn(Seq<char>) -> int) -> Seq<(int, int)> {
    let clean = normalized(text);
    let n = clean.len() as int;
    let limit = wrap_limit(max_width);
    if n == 0 {
        Seq::empty()
    } else if w(clean) <= limit {
        seq![(0, n)]
    } else {
        let words = char_words(clean);
        if words.len() == 0 {
            seq![(0, n)]
        } else {
            let (rows, cur) = wrap_fold(clean, words, words.len() as int, limit, w);
            let all = match cur {
                Some(c) => rows.push(c),
                None => rows,
            };
            if all.len() == 0 { seq![(0, n)] } else { all }
        }
    }
}

proof fn lemma_split_token(clean: Seq<char>, a: int, b: int, limit: int, w: spec_fn(Seq<char>) -> int)
    requires
        a <= b,
    ensures
        spans_within(split_token(clean, a, b, limit, w), a, b),
        spans_sorted(split_token(clean, a, b, limit, w)),
        split_token(clean, a, b, limit, w).len() > 0,
{
    lemma_split_fold(clean, a, b, limit, w);
}

/// Two runs of ordered ranges, the second starting after the first ends,
/// make one run of ordered ranges.
proof fn lemma_sorted_concat(x: Seq<(int, int)>, y: Seq<(int, int)>, at: int)
    requires
        spans_sorted(x),
        spans_sorted(y),
        ends_by(x, at),
        forall|i: int| 0 <= i < y.len() ==> at <= (#[trigger] y[i]).0,
    ensures
        spans_sorted(x + y),
{
    assert forall|i: int, j: int| 0 <= i < j < (x + y).len() implies (#[trigger] (x + y)[i]).1 <= (#[trigger] (x + y)[j]).0 by {
        if j < x.len() {
        } else if i < x.len() {
            assert(y[j - x.len()].0 >= at);
        } else {
            assert((x + y)[i] == y[i - x.len()]);
            assert((x + y)[j] == y[j - x.len()]);
        }
    }
}

/// What the wrapping keeps after `k` words: its rows lie in the text in
/// order, and end before the row being filled starts, or before the
/// `k`-th word ends when no row is being filled.
pub open spec fn fold_ordered(words: Seq<(int, int)>, k: int, n: int, st: (Seq<(int, int)>, Option<(int, int)>)) -> bool {
    let frontier = if k > 0 { words[k - 1].1 } else { 0 };
    &&& spans_within(st.0, 0, n)
    &&& spans_sorted(st.0)
    &&& match st.1 {
        Some(c) => k > 0 && 0 <= c.0 <= c.1 && c.1 == frontier && ends_by(st.0, c.0),
        None => ends_by(st.0, frontier),
    }
}

proof fn lemma_wrap_fold(clean: Seq<char>, words: Seq<(int, int)>, k: int, limit: int, w: spec_fn(Seq<char>) -> int)
    requires
        0 <= k <= words.len(),
        spans_within(words, 0, clean.len() as int),
        spans_sorted(words),
        forall|i: int| 0 <= i < words.len() ==> (#[trigger] words[i]).0 < words[i].1,
    ensures
        fold_ordered(words, k, clean.len() as int, wrap_fold(clean, words, k, limit, w)),
    decreases k,
{
    if k > 0 {
        lemma_wrap_fold(clean, words, k - 1, limit, w);
        let (rows, cur) = wrap_fold(clean, words, k - 1, limit, w);
        let word = words[k - 1];
        let n = clean.len() as int;
        if k > 1 {
            assert(words[k - 2].1 <= words[k - 1].0);
        }
        let cs = match cur {
            Some(c) => c.0,
            None => word.0,
        };
        if w(clean.subrange(cs, word.1)) <= limit {
        } else {
            let closed = match cur {
                Some(c) => rows.push(c),
                None => rows,
            };
            assert(spans_sorted(closed) && spans_within(closed, 0, n) && ends_by(closed, word.0)) by {
                if let Some(c) = cur {
                    assert(closed == rows + seq![c]);
                    lemma_sorted_concat(rows, seq![c], c.0);
                }
            }
            if w(clean.subrange(word.0, word.1)) <= limit {
            } else {
                let cut = split_token(clean, word.0, word.1, limit, w);
                lemma_split_token(clean, word.0, word.1, limit, w);
                lemma_sorted_concat(closed, cut, word.0);
                assert(spans_within(closed + cut, 0, n)) by {
                    assert forall|i: int| 0 <= i < (closed + cut).len() implies 0 <= (#[trigger] (closed + cut)[i]).0 <= (closed + cut)[i].1 <= n by {
                        if i >= closed.len() {
                            assert((closed + cut)[i] == cut[i - closed.len()]);
                        }
                    }
                }
                assert(ends_by(closed + cut, word.1)) by {
                    assert forall|i: int| 0 <= i < (closed + cut).len() implies (#[trigger] (closed + cut)[i]).1 <= word.1 by {
                        if i >= closed.len() {
                            assert((closed + cut)[i] == cut[i - closed.len()]);
                        }
                    }
                }
            }
        }
    }
}

/// The rows of wrapping lie within the normalized text, in order, and there
/// is at least one unless the text is blank.
pub(crate) proof fn lemma_wrap_rows_ordered(text: Seq<char>, max_width: int, w: spec_fn(Seq<char>) -> int)
    ensures
        spans_within(wrap_rows(text, max_width, w), 0, normalized(text).len() as int),
        spans_sorted(wrap_rows(text, max_width, w)),
        wrap_rows(text, max_width, w).len() == 0 <==> normalized(text).len() == 0,
{
    let clean = normalized(text);
    let n = clean.len() as int;
    let words = char_words(clean);
    lemma_char_words(clean);
    if n > 0 && w(clean) > wrap_limit(max_width) && words.len() > 0 {
        lemma_wrap_fold(clean, words, words.len() as int, wrap_limit(max_width), w);
        let (rows, cur) = wrap_fold(clean, words, words.len() as int, wrap_limit(max_width), w);
        if let Some(c) = cur {
            lemma_sorted_concat(rows, seq![c], c.0);
            assert(rows.push(c) == rows + seq![c]);
        }
    }
}

/// Whether some range holds position `i`.
pub open spec fn covered(spans: Seq<(int, int)>, i: int) -> bool {
    exists|j: int| 0 <= j < spans.len() && (#[trigger] spans[j]).0 <= i < spans[j].1
}

proof fn lemma_covered_extend(x: Seq<(int, int)>, y: Seq<(int, int)>, i: int)
    requires
        covered(x, i),
    ensures
        covered(x + y, i),
{
    let j = choose|j: int| 0 <= j < x.len() && (#[trigger] x[j]).0 <= i < x[j].1;
    assert((x + y)[j] == x[j]);
}

proof fn lemma_covered_by_tail(x: Seq<(int, int)>, y: Seq<(int, int)>, i: int)
    requires
        covered(y, i),
    ensures
        covered(x + y, i),
{
    let j = choose|j: int| 0 <= j < y.len() && (#[trigger] y[j]).0 <= i < y[j].1;
    assert((x + y)[x.len() + j] == y[j]);
}

proof fn lemma_split_fold_covers(clean: Seq<char>, a: int, j: int, limit: int, w: spec_fn(Seq<char>) -> int)
    requires
        a <= j,
    ensures
        forall|i: int| a <= i < split_fold(clean, a, j, limit, w).1 ==> covered(split_fold(clean, a, j, limit, w).0, i),
    decreases j - a,
{
    if j > a {
        lemma_split_fold_covers(clean, a, j - 1, limit, w);
        lemma_split_fold(clean, a, j - 1, limit, w);
        let (rows, cs) = split_fold(clean, a, j - 1, limit, w);
        if cs < j - 1 && w(clean.subrange(cs, j)) > limit {
            let next = rows.push((cs, j - 1));
            assert(next == rows + seq![(cs, j - 1)]);
            assert forall|i: int| a <= i < j - 1 implies covered(next, i) by {
                if i < cs {
                    lemma_covered_extend(rows, seq![(cs, j - 1)], i);
                } else {
                    assert(next[rows.len() as int] == (cs, j - 1));
                }
            }
        }
    }
}

proof fn lemma_split_token_covers(clean: Seq<char>, a: int, b: int, limit: int, w: spec_fn(Seq<char>) -> int)
    requires
        a <= b,
    ensures
        forall|i: int| a <= i < b ==> covered(split_token(clean, a, b, limit, w), i),
{
    lemma_split_fold(clean, a, b, limit, w);
    lemma_split_fold_covers(clean, a, b, limit, w);
    let (rows, cs) = split_fold(clean, a, b, limit, w);
    let all = if cs < b { rows.push((cs, b)) } else { rows };
    assert forall|i: int| a <= i < b implies covered(all, i) by {
        if cs < b {
            assert(all == rows + seq![(cs, b)]);
            if i < cs {
                lemma_covered_extend(rows, seq![(cs, b)], i);
            } else {
                assert(all[rows.len() as int] == (cs, b));
            }
        }
    }
    if all.len() == 0 {
        assert forall|i: int| a <= i < b implies covered(split_token(clean, a, b, limit, w), i) by {
            assert(split_token(clean, a, b, limit, w)[0] == (a, b));
        }
    }
}

proof fn lemma_char_word_scan_covers(s: Seq<char>)
    ensures
        forall|i: int| 0 <= i < s.len() && !unicode_white_space(#[trigger] s[i]) ==> covered(char_word_scan(s).0, i) || (char_word_scan(s).1 matches Some(a) && a <= i),
    decreases s.len(),
{
    if s.len() > 0 {
        let p = s.drop_last();
        lemma_char_word_scan_covers(p);
        lemma_char_word_scan(p);
        let (done, start) = char_word_scan(p);
        let last = s.len() - 1;
        assert forall|i: int| 0 <= i < s.len() && !unicode_white_space(#[trigger] s[i]) implies
            covered(char_word_scan(s).0, i) || (char_word_scan(s).1 matches Some(a) && a <= i) by {
            if i < last {
                assert(p[i] == s[i]);
                if unicode_white_space(s.last()) {
                    if let Some(a) = start {
                        let next = done.push((a, last));
                        assert(next == done + seq![(a, last)]);
                        if covered(done, i) {
                            lemma_covered_extend(done, seq![(a, last)], i);
                        } else {
                            assert(next[done.len() as int] == (a, last));
                        }
                    }
                }
            }
        }
    }
}

proof fn lemma_char_words_cover(s: Seq<char>)
    ensures
        forall|i: int| 0 <= i < s.len() && !unicode_white_space(#[trigger] s[i]) ==> covered(char_words(s), i),
{
    lemma_char_word_scan_covers(s);
    lemma_char_word_scan(s);
    let (done, start) = char_word_scan(s);
    if let Some(a) = start {
        let all = done.push((a, s.len() as int));
        assert(all == done + seq![(a, s.len() as int)]);
        assert forall|i: int| 0 <= i < s.len() && !unicode_white_space(#[trigger] s[i]) implies covered(all, i) by {
            if covered(done, i) {
                lemma_covered_extend(done, seq![(a, s.len() as int)], i);
            } else {
                assert(all[done.len() as int] == (a, s.len() as int));
            }
        }
    }
}

/// Whether position `i` lies in the `t`-th word.
pub open spec fn in_word(words: Seq<(int, int)>, t: int, i: int) -> bool {
    0 <= t < words.len() && words[t].0 <= i < words[t].1
}

/// After `k` words, every position of those words lies in a made row or
/// in the row being filled.
pub open spec fn fold_covers(words: Seq<(int, int)>, k: int, st: (Seq<(int, int)>, Option<(int, int)>)) -> bool {
    forall|t: int, i: int| t < k && #[trigger] in_word(words, t, i) ==>
        covered(st.0, i) || (st.1 matches Some(c) && c.0 <= i < c.1)
}

proof fn lemma_wrap_fold_covers(clean: Seq<char>, words: Seq<(int, int)>, k: int, limit: int, w: spec_fn(Seq<char>) -> int)
    requires
        0 <= k <= words.len(),
        spans_within(words, 0, clean.len() as int),
        spans_sorted(words),
        forall|i: int| 0 <= i < words.len() ==> (#[trigger] words[i]).0 < words[i].1,
    ensures
        fold_covers(words, k, wrap_fold(clean, words, k, limit, w)),
    decreases k,
{
    if k > 0 {
        lemma_wrap_fold_covers(clean, words, k - 1, limit, w);
        lemma_wrap_fold(clean, words, k - 1, limit, w);
        let (rows, cur) = wrap_fold(clean, words, k - 1, limit, w);
        let word = words[k - 1];
        if k > 1 {
            assert(words[k - 2].1 <= words[k - 1].0);
        }
        let cs = match cur {
            Some(c) => c.0,
            None => word.0,
        };
        let next = wrap_fold(clean, words, k, limit, w);
        if w(clean.subrange(cs, word.1)) <= limit {
            assert(fold_covers(words, k, next));
        } else {
            let closed = match cur {
                Some(c) => rows.push(c),
                None => rows,
            };
            assert forall|t: int, i: int| t < k - 1 && #[trigger] in_word(words, t, i) implies covered(closed, i) by {
                if let Some(c) = cur {
                    assert(closed == rows + seq![c]);
                    if covered(rows, i) {
                        lemma_covered_extend(rows, seq![c], i);
                    } else {
                        assert(closed[rows.len() as int] == c);
                    }
                }
            }
            if w(clean.subrange(word.0, word.1)) <= limit {
                assert(fold_covers(words, k, next));
            } else {
                let cut = split_token(clean, word.0, word.1, limit, w);
                lemma_split_token_covers(clean, word.0, word.1, limit, w);
                assert forall|t: int, i: int| t < k && #[trigger] in_word(words, t, i) implies covered(closed + cut, i) by {
                    if t < k - 1 {
                        lemma_covered_extend(closed, cut, i);
                    } else {
                        lemma_covered_by_tail(closed, cut, i);
                    }
                }
            }
        }
    }
}

/// Every character of the normalized text that is no whitespace lies in a
/// row of the wrapping: wrapping loses no text.
pub(crate) proof fn lemma_wrap_rows_cover(text: Seq<char>, max_width: int, w: spec_fn(Seq<char>) -> int)
    ensures
        forall|i: int| 0 <= i < normalized(text).len() && !unicode_white_space(#[trigger] normalized(text)[i])
            ==> covered(wrap_rows(text, max_width, w), i),
{
    let clean = normalized(text);
    let n = clean.len() as int;
    let words = char_words(clean);
    lemma_char_words(clean);
    lemma_char_words_cover(clean);
    let rows_out = wrap_rows(text, max_width, w);
    if n > 0 && w(clean) > wrap_limit(max_width) && words.len() > 0 {
        lemma_wrap_fold_covers(clean, words, words.len() as int, wrap_limit(max_width), w);
        let (rows, cur) = wrap_fold(clean, words, words.len() as int, wrap_limit(max_width), w);
        let all = match cur {
            Some(c) => rows.push(c),
            None => rows,
        };
        assert forall|i: int| 0 <= i < n && !unicode_white_space(#[trigger] clean[i]) implies covered(all, i) by {
            let j = choose|j: int| 0 <= j < words.len() && (#[trigger] words[j]).0 <= i < words[j].1;
            assert(in_word(words, j, i));
            if let Some(c) = cur {
                assert(all == rows + seq![c]);
                if covered(rows, i) {
                    lemma_covered_extend(rows, seq![c], i);
                } else {
                    assert(all[rows.len() as int] == c);
                }
            }
        }
        if all.len() == 0 {
            assert forall|i: int| 0 <= i < n && !unicode_white_space(#[trigger] clean[i]) implies covered(rows_out, i) by {
                assert(rows_out[0] == (0int, n));
            }
        }
    } else if n > 0 {
        assert forall|i: int| 0 <= i < n && !unicode_white_space(#[trigger] clean[i]) implies covered(rows_out, i) by {
            assert(rows_out[0] == (0int, n));
        }
    }
}

/// The rows a text wraps into at `max_width`, each with its text and its
/// byte range in the normalized text. Whatever the widths: no row exactly
/// when the text is blank, and the rows are pieces of the normalized text.
pub fn wrap_text_to_width_rows<F: Fn(&str) -> i32>(text: &str, max_width: i32, measure: &F) -> (r: Vec<WrappedRow>)
    requires
        measurable(*measure),
    ensures
        r@.len() == 0 <==> normalized(text@).len() == 0,
        exists|spans: Seq<(int, int)>|
            spans_within(spans, 0, normalized(text@).len() as int) && spans_sorted(spans)
                && rows_view(r@) == #[trigger] pieces(normalized(text@), spans),
        deterministic(*measure) ==> rows_view(r@) == pieces(
            normalized(text@),
            wrap_rows(text@, max_width as int, widths(*measure)),
        ),
{
    let ghost wf = widths(*measure);
    let clean = normalize_text(text);
    let chars = str_chars(clean.as_str());
    let ghost n = chars@.len() as int;
    if chars.len() == 0 {
        let r: Vec<WrappedRow> = Vec::new();
        assert(rows_view(r@) =~= pieces(chars@, Seq::empty()));
        return r;
    }
    let total = clean.as_str().as_bytes().len();
    let offsets = prefix_offsets(&chars, total);
    let limit: i32 = if max_width > 16 { max_width } else { 16 };
    let whole_fits = measure_text(measure, clean.as_str()) <= limit;
    let words = char_word_bounds(&chars);
    if whole_fits || words.len() == 0 {
        let mut r: Vec<WrappedRow> = Vec::new();
        r.push(row_of(&chars, &offsets, 0, chars.len()));
        assert(rows_view(r@) =~= pieces(chars@, seq![(0int, n)]));
        return r;
    }
    let ghost ws = char_words(chars@);
    let mut rows: Vec<WrappedRow> = Vec::new();
    let mut cur: Option<(usize, usize)> = None;
    let ghost mut spans: Seq<(int, int)> = Seq::empty();
    let mut k: usize = 0;
    assert(rows_view(rows@) =~= pieces(chars@, spans));
    while k < words.len()
        invariant
            k <= words.len(),
            chars@ == normalized(text@),
            n == chars@.len(),
            ws == char_words(chars@),
            words@.map_values(|p: (usize, usize)| (p.0 as int, p.1 as int)) == ws,
            spans_within(ws, 0, n),
            spans_sorted(ws),
            forall|i: int| 0 <= i < ws.len() ==> (#[trigger] ws[i]).0 < ws[i].1,
            offsets@.len() == chars@.len() + 1,
            forall|q: int| 0 <= q <= chars@.len() ==> #[trigger] offsets@[q] as int == blen(chars@.take(q)),
            measurable(*measure),
            wf == (widths(*measure)),
            limit as int == wrap_limit(max_width as int),
            rows_view(rows@) == pieces(chars@, spans),
            spans_within(spans, 0, n),
            spans_sorted(spans),
            cur matches Some(c) ==> k > 0 && c.0 <= c.1 && c.1 == ws[k - 1].1,
            match cur {
                Some(c) => ends_by(spans, c.0 as int),
                None => ends_by(spans, if k > 0 { ws[k - 1].1 } else { 0 }),
            },
            deterministic(*measure) ==> (spans, match cur {
                Some(c) => Some((c.0 as int, c.1 as int)),
                None => None,
            }) == wrap_fold(chars@, ws, k as int, limit as int, wf),
        decreases words.len() - k,
    {
        let (ws_start, ws_end) = words[k];
        assert(ws[k as int] == (ws_start as int, ws_end as int));
        assert(k > 0 ==> ws[k - 1].1 <= ws[k as int].0);
        let cs = match cur {
            Some(c) => c.0,
            None => ws_start,
        };
        let candidate = text_of(&chars, cs, ws_end);
        if measure_text(measure, candidate.as_str()) <= limit {
            cur = Some((cs, ws_end));
        } else {
            if let Some(c) = cur {
                let ghost before = rows_view(rows@);
                rows.push(row_of(&chars, &offsets, c.0, c.1));
                proof {
                    assert(rows_view(rows@) =~= before.push(piece_row(chars@, (c.0 as int, c.1 as int))));
                    assert(pieces(chars@, spans.push((c.0 as int, c.1 as int))) =~= pieces(chars@, spans).push(piece_row(chars@, (c.0 as int, c.1 as int))));
                    lemma_sorted_concat(spans, seq![(c.0 as int, c.1 as int)], c.0 as int);
                    assert(spans.push((c.0 as int, c.1 as int)) =~= spans + seq![(c.0 as int, c.1 as int)]);
                    spans = spans.push((c.0 as int, c.1 as int));
                }
            }
            let single = text_of(&chars, ws_start, ws_end);
            if measure_text(measure, single.as_str()) <= limit {
                cur = Some((ws_start, ws_end));
            } else {
                let ghost before_spans = spans;
                let cut = push_split_rows(&mut rows, &chars, &offsets, ws_start, ws_end, limit, measure);
                proof {
                    assert(pieces(chars@, before_spans + cut@) =~= pieces(chars@, before_spans) + pieces(chars@, cut@));
                    lemma_sorted_concat(before_spans, cut@, ws_start as int);
                    assert forall|q: int| 0 <= q < (before_spans + cut@).len() implies
                        0 <= (#[trigger] (before_spans + cut@)[q]).0 <= (before_spans + cut@)[q].1 <= n
                        && (before_spans + cut@)[q].1 <= ws_end by {
                        if q >= before_spans.len() {
                            assert((before_spans + cut@)[q] == cut@[q - before_spans.len()]);
                        }
                    }
                    spans = before_spans + cut@;
                }
                cur = None;
            }
        }
        k += 1;
    }
    if let Some(c) = cur {
        let ghost before = rows_view(rows@);
        rows.push(row_of(&chars, &offsets, c.0, c.1));
        proof {
            assert(rows_view(rows@) =~= before.push(piece_row(chars@, (c.0 as int, c.1 as int))));
            assert(pieces(chars@, spans.push((c.0 as int, c.1 as int))) =~= pieces(chars@, spans).push(piece_row(chars@, (c.0 as int, c.1 as int))));
            lemma_sorted_concat(spans, seq![(c.0 as int, c.1 as int)], c.0 as int);
            assert(spans.push((c.0 as int, c.1 as int)) =~= spans + seq![(c.0 as int, c.1 as int)]);
            spans = spans.push((c.0 as int, c.1 as int));
        }
    }
    if rows.len() == 0 {
        rows.push(row_of(&chars, &offsets, 0, chars.len()));
        proof {
            spans = seq![(0int, n)];
        }
        assert(rows_view(rows@) =~= pieces(chars@, spans));
    }
    rows
}

/// How many rows a text wraps into at `max_width`.
pub fn wrapped_line_count_for_text<F: Fn(&str) -> i32>(text: &str, max_width: i32, measure: &F) -> (r: usize)
    requires
        measurable(*measure),
    ensures
        r == 0 <==> normalized(text@).len() == 0,
        deterministic(*measure) ==> r == wrap_rows(text@, max_width as int, widths(*measure)).len(),
{
    let rows = wrap_text_to_width_rows(text, max_width, measure);
    proof {
        let spans = choose|spans: Seq<(int, int)>|
            spans_within(spans, 0, normalized(text@).len() as int) && rows_view(rows@) == #[trigger] pieces(normalized(text@), spans);
        assert(rows_view(rows@).len() == rows@.len());
        assert(pieces(normalized(text@), spans).len() == spans.len());
        assert(pieces(normalized(text@), wrap_rows(text@, max_width as int, widths(*measure))).len()
            == wrap_rows(text@, max_width as int, widths(*measure)).len());
    }
    rows.len()
}

// ---------------------------------------------------------------- measuring lines

/// `x` held within the range of `i32`.
pub open spec fn sat_i32(x: int) -> int {
    if x > i32::MAX {
        i32::MAX as int
    } else if x < i32::MIN {
        i32::MIN as int
    } else {
        x
    }
}

/// `x` held below the largest `usize`.
pub open spec fn sat_usize(x: int) -> int {
    if x > usize::MAX { usize::MAX as int } else { x }
}

pub(crate) fn add_i32(a: i32, b: i32) -> (r: i32)
    ensures
        r == sat_i32(a + b),
{
    let sum: i64 = a as i64 + b as i64;
    if sum > i32::MAX as i64 {
        i32::MAX
    } else if sum < i32::MIN as i64 {
        i32::MIN
    } else {
        sum as i32
    }
}

/// The width of one suffix segment, in the small font or, when
/// highlighted, the small bold one.
pub open spec fn segment_width(
    seg: (Seq<char>, bool),
    small: spec_fn(Seq<char>) -> int,
    small_bold: spec_fn(Seq<char>) -> int,
) -> int {
    if seg.1 { small_bold(seg.0) } else { small(seg.0) }
}

/// The widths of the suffix segments added up.
pub open spec fn suffix_width(
    segs: Seq<(Seq<char>, bool)>,
    small: spec_fn(Seq<char>) -> int,
    small_bold: spec_fn(Seq<char>) -> int,
) -> int
    decreases segs.len(),
{
    if segs.len() == 0 {
        0
    } else {
        sat_i32(suffix_width(segs.drop_last(), small, small_bold) + segment_width(segs.last(), small, small_bold))
    }
}

/// The width of a menu item on one row: the bullet and the main text, and
/// when there is a suffix, its segments and a gap of 4.
pub open spec fn styled_width(
    main: Seq<char>,
    segs: Seq<(Seq<char>, bool)>,
    bullet: int,
    normal: spec_fn(Seq<char>) -> int,
    small: spec_fn(Seq<char>) -> int,
    small_bold: spec_fn(Seq<char>) -> int,
) -> int {
    let lead = sat_i32(bullet + normal(main));
    if segs.len() == 0 {
        lead
    } else {
        sat_i32(sat_i32(lead + suffix_width(segs, small, small_bold)) + 4)
    }
}

/// The width of a menu item (its main text after a bullet of
/// `bullet_width`, then its suffix segments) on one row.
pub fn text_with_suffix_width<N: Fn(&str) -> i32, S: Fn(&str) -> i32, B: Fn(&str) -> i32>(
    main: &str,
    segments: &Vec<(String, bool)>,
    bullet_width: i32,
    normal: &N,
    small: &S,
    small_bold: &B,
) -> (r: i32)
    requires
        measurable(*normal),
        measurable(*small),
        measurable(*small_bold),
    ensures
        deterministic(*normal) && deterministic(*small) && deterministic(*small_bold) ==> r == styled_width(
            main@,
            segments_view(segments@),
            bullet_width as int,
            widths(*normal),
            widths(*small),
            widths(*small_bold),
        ),
{
    let ghost segs = segments_view(segments@);
    let main_width = measure_text(normal, main);
    let lead = add_i32(bullet_width, main_width);
    if segments.len() == 0 {
        return lead;
    }
    let mut suffix: i32 = 0;
    let mut i: usize = 0;
    while i < segments.len()
        invariant
            i <= segments.len(),
            segs == segments_view(segments@),
            measurable(*small),
            measurable(*small_bold),
            deterministic(*small) && deterministic(*small_bold) ==> suffix == suffix_width(
                segs.take(i as int),
                widths(*small),
                widths(*small_bold),
            ),
        decreases segments.len() - i,
    {
        let width = if segments[i].1 {
            measure_text(small_bold, segments[i].0.as_str())
        } else {
            measure_text(small, segments[i].0.as_str())
        };
        proof {
            assert(segs.take(i + 1).drop_last() =~= segs.take(i as int));
            assert(segs.take(i + 1).last() == segs[i as int]);
        }
        suffix = add_i32(suffix, width);
        i += 1;
    }
    assert(segs.take(segments.len() as int) =~= segs);
    add_i32(add_i32(lead, suffix), 4)
}

/// The bullet drawn before a menu item.
pub open spec fn bullet_prefix() -> Seq<char> {
    seq!['\u{25B8}', ' ']
}

/// At least one.
pub open spec fn at_least_one(n: int) -> int {
    if n >= 1 { n } else { 1 }
}

/// The larger of two numbers.
pub open spec fn larger(a: int, b: int) -> int {
    if a >= b { a } else { b }
}

/// How many rows a text wraps into.
pub open spec fn row_count(text: Seq<char>, max_width: int, w: spec_fn(Seq<char>) -> int) -> int {
    wrap_rows(text, max_width, w).len() as int
}

/// The suffix segments joined and normalized.
pub open spec fn flattened(segs: Seq<(Seq<char>, bool)>) -> Seq<char> {
    normalized(crate::seqs::join(segs.map_values(|p: (Seq<char>, bool)| p.0), Seq::empty()))
}

/// The widths of the four fonts lines are drawn with.
pub struct FontWidths {
    pub normal: spec_fn(Seq<char>) -> int,
    pub bold: spec_fn(Seq<char>) -> int,
    pub small: spec_fn(Seq<char>) -> int,
    pub small_bold: spec_fn(Seq<char>) -> int,
}

/// One line measured: the widest line so far and the rows so far, after
/// `line`. A heading (bold) or text line needs its width and its wrapped
/// rows (at least one); a menu item its one-row width, and one row when
/// that fits, else the rows of its main text and of its flattened suffix
/// (at least one each) at the narrower width beside the bullet; a spacer
/// one row.
pub open spec fn measure_step(
    acc: (int, int),
    line: LineV,
    wrap_width: int,
    main_wrap: int,
    bullet: int,
    f: FontWidths,
) -> (int, int) {
    let (req, count) = acc;
    match line {
        LineV::Heading(t) => (larger(req, (f.bold)(t)), sat_usize(count + at_least_one(row_count(t, wrap_width, f.bold)))),
        LineV::Text(t) => (larger(req, (f.normal)(t)), sat_usize(count + at_least_one(row_count(t, wrap_width, f.normal)))),
        LineV::MenuItem { main, suffix_segments } => {
            let sw = styled_width(main, suffix_segments, bullet, f.normal, f.small, f.small_bold);
            if sw <= wrap_width {
                (larger(req, sw), sat_usize(count + 1))
            } else {
                let with_main = sat_usize(count + at_least_one(row_count(main, main_wrap, f.normal)));
                let flat = flattened(suffix_segments);
                if suffix_segments.len() > 0 && flat.len() > 0 {
                    (larger(req, sw), sat_usize(with_main + at_least_one(row_count(flat, main_wrap, f.small))))
                } else {
                    (larger(req, sw), with_main)
                }
            }
        },
        LineV::Spacer => (req, sat_usize(count + 1)),
    }
}

/// The first `k` lines measured.
pub open spec fn measure_fold(
    lines: Seq<LineV>,
    k: int,
    wrap_width: int,
    main_wrap: int,
    bullet: int,
    f: FontWidths,
) -> (int, int)
    decreases k,
{
    if k <= 0 {
        (0, 0)
    } else {
        measure_step(measure_fold(lines, k - 1, wrap_width, main_wrap, bullet, f), lines[k - 1], wrap_width, main_wrap, bullet, f)
    }
}

/// The widest line and the number of wrapped rows of `lines` laid out in
/// `wrap_content_width` (at least 40); menu items wrap beside the bullet,
/// in at least 24.
pub open spec fn lines_layout(lines: Seq<LineV>, wrap_content_width: int, f: FontWidths) -> (int, int) {
    let wrap_width = larger(wrap_content_width, 40);
    let bullet = (f.normal)(bullet_prefix());
    let main_wrap = larger(sat_i32(wrap_width - bullet), 24);
    measure_fold(lines, lines.len() as int, wrap_width, main_wrap, bullet, f)
}

/// The widest line and the number of wrapped rows of the popup's lines,
/// measured with the four fonts. Whatever the widths, every line takes at
/// least one row and the width is not negative; with deterministic
/// measuring both are as `lines_layout` says.
pub fn measure_lines_layout<N: Fn(&str) -> i32, D: Fn(&str) -> i32, S: Fn(&str) -> i32, B: Fn(&str) -> i32>(
    lines: &Vec<Line>,
    wrap_content_width: i32,
    normal: &N,
    bold: &D,
    small: &S,
    small_bold: &B,
) -> (r: LineLayoutMetrics)
    requires
        measurable(*normal),
        measurable(*bold),
        measurable(*small),
        measurable(*small_bold),
    ensures
        r.required_content_width >= 0,
        r.wrapped_line_count >= lines@.len(),
        deterministic(*normal) && deterministic(*bold) && deterministic(*small) && deterministic(*small_bold) ==> (
        r.required_content_width as int,
        r.wrapped_line_count as int,
        ) == lines_layout(
            lines.deep_view(),
            wrap_content_width as int,
            FontWidths {
                normal: widths(*normal),
                bold: widths(*bold),
                small: widths(*small),
                small_bold: widths(*small_bold),
            },
        ),
{
    let ghost f = FontWidths {
        normal: widths(*normal),
        bold: widths(*bold),
        small: widths(*small),
        small_bold: widths(*small_bold),
    };
    let ghost all = deterministic(*normal) && deterministic(*bold) && deterministic(*small) && deterministic(*small_bold);
    let ghost lv = lines.deep_view();
    let wrap_width: i32 = if wrap_content_width > 40 { wrap_content_width } else { 40 };
    proof {
        reveal_strlit("\u{25B8} ");
    }
    let bullet = "\u{25B8} ";
    assert(bullet@ =~= bullet_prefix());
    let bullet_width = measure_text(normal, bullet);
    let narrowed = add_i32(wrap_width, if bullet_width == i32::MIN { i32::MAX } else { -bullet_width });
    assert(all ==> bullet_width == (f.normal)(bullet_prefix()));
    proof {
        if bullet_width == i32::MIN {
            assert(sat_i32(wrap_width - bullet_width) == i32::MAX);
        }
    }
    let main_wrap_width: i32 = if narrowed > 24 { narrowed } else { 24 };
    let mut required: i32 = 0;
    let mut count: usize = 0;
    let mut i: usize = 0;
    while i < lines.len()
        invariant
            i <= lines.len(),
            lv == lines.deep_view(),
            measurable(*normal),
            measurable(*bold),
            measurable(*small),
            measurable(*small_bold),
            f == (FontWidths {
                normal: widths(*normal),
                bold: widths(*bold),
                small: widths(*small),
                small_bold: widths(*small_bold),
            }),
            all == (deterministic(*normal) && deterministic(*bold) && deterministic(*small) && deterministic(*small_bold)),
            required >= 0,
            count >= i,
            all ==> (required as int, count as int) == measure_fold(
                lv,
                i as int,
                wrap_width as int,
                main_wrap_width as int,
                bullet_width as int,
                f,
            ),
        decreases lines.len() - i,
    {
        assert(lv[i as int] == lines@[i as int].deep_view());
        match &lines[i] {
            Line::Heading(text) => {
                let width = measure_text(bold, text.as_str());
                if width > required {
                    required = width;
                }
                let rows = wrapped_line_count_for_text(text.as_str(), wrap_width, bold);
                let rows = if rows > 1 { rows } else { 1 };
                count = count.saturating_add(rows);
            },
            Line::Text(text) => {
                let width = measure_text(normal, text.as_str());
                if width > required {
                    required = width;
                }
                let rows = wrapped_line_count_for_text(text.as_str(), wrap_width, normal);
                let rows = if rows > 1 { rows } else { 1 };
                count = count.saturating_add(rows);
            },
            Line::MenuItem { main, suffix_segments } => {
                let styled = text_with_suffix_width(main.as_str(), suffix_segments, bullet_width, normal, small, small_bold);
                if styled > required {
                    required = styled;
                }
                if styled <= wrap_width {
                    count = count.saturating_add(1);
                } else {
                    let main_rows = wrapped_line_count_for_text(main.as_str(), main_wrap_width, normal);
                    let main_rows = if main_rows > 1 { main_rows } else { 1 };
                    count = count.saturating_add(main_rows);
                    if suffix_segments.len() > 0 {
                        let plain = flatten_suffix_segments(suffix_segments);
                        assert(segments_view(suffix_segments@).map_values(|p: (Seq<char>, bool)| p.0)
                            =~= suffix_segments@.map_values(|x: (String, bool)| x.0@));
                        if str_chars(plain.as_str()).len() > 0 {
                            let suffix_rows = wrapped_line_count_for_text(plain.as_str(), main_wrap_width, small);
                            let suffix_rows = if suffix_rows > 1 { suffix_rows } else { 1 };
                            count = count.saturating_add(suffix_rows);
                        }
                    }
                }
            },
            Line::Spacer => {
                count = count.saturating_add(1);
            },
        }
        i += 1;
    }
    LineLayoutMetrics { required_content_width: required, wrapped_line_count: count }
}

/// How far right the character at `k` of a row starts: the widths of the
/// characters before it, each measured alone, added up.
pub open spec fn char_x(text: Seq<char>, k: int, w: spec_fn(Seq<char>) -> int) -> int
    decreases k,
{
    if k <= 0 {
        0
    } else {
        sat_i32(char_x(text, k - 1, w) + w(seq![text[k - 1]]))
    }
}

/// The character boundaries of a drawn row, from its start to its end: at
/// each, the byte index into the row and how far right it is drawn.
pub fn row_boundaries<F: Fn(&str) -> i32>(text: &str, measure: &F) -> (r: Vec<SelectableBoundary>)
    requires
        measurable(*measure),
    ensures
        r@.len() == text@.len() + 1,
        r@[0].x_offset == 0,
        forall|k: int| 0 <= k <= text@.len() ==> #[trigger] r@[k].byte_index as int == blen(text@.take(k)),
        deterministic(*measure) ==> forall|k: int|
            0 <= k <= text@.len() ==> #[trigger] r@[k].x_offset as int == char_x(text@, k, widths(*measure)),
{
    let chars = str_chars(text);
    let total = text.as_bytes().len();
    let offsets = prefix_offsets(&chars, total);
    let mut out: Vec<SelectableBoundary> = Vec::new();
    out.push(SelectableBoundary { byte_index: 0, x_offset: 0 });
    assert(chars@.take(0) =~= Seq::<char>::empty());
    assert(encode_utf8(Seq::<char>::empty()) =~= Seq::<u8>::empty());
    let mut x: i32 = 0;
    let mut i: usize = 0;
    while i < chars.len()
        invariant
            i <= chars.len(),
            chars@ == text@,
            offsets@.len() == chars@.len() + 1,
            forall|q: int| 0 <= q <= chars@.len() ==> #[trigger] offsets@[q] as int == blen(chars@.take(q)),
            measurable(*measure),
            out@.len() == i + 1,
            out@[0].x_offset == 0,
            out@[i as int].x_offset == x,
            forall|k: int| 0 <= k <= i ==> #[trigger] out@[k].byte_index as int == blen(chars@.take(k)),
            deterministic(*measure) ==> forall|k: int|
                0 <= k <= i ==> #[trigger] out@[k].x_offset as int == char_x(chars@, k, widths(*measure)),
        decreases chars.len() - i,
    {
        let mut single: Vec<char> = Vec::new();
        single.push(chars[i]);
        let one = chars_to_string(&single);
        assert(one@ =~= seq![chars@[i as int]]);
        let width = measure_text(measure, one.as_str());
        x = add_i32(x, width);
        out.push(SelectableBoundary { byte_index: offsets[i + 1], x_offset: x });
        i += 1;
    }
    out
}

} // verus!
