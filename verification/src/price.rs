//! Price-text cleanup and price-group filtering for menu headings.

use vstd::prelude::*;
use crate::normalize::{normalize_chars, normalized};
use crate::seqs::{
    deep, join, join_chars, occurs_at, occurs_at_exec, slice_chars, split_chars, split_on,
    starts_with, trim_start_by,
};
use crate::text::{
    char_is_alphabetic, chars_to_string, str_chars, str_to_lowercase, unicode_alphabetic,
    seq_ascii_lower, unicode_lowercase,
};

verus! {

// ---------------------------------------------------------------- decimals and euro signs

pub open spec fn is_digit(c: char) -> bool {
    '0' <= c && c <= '9'
}

/// The number of leading ASCII digits of `s`.
pub open spec fn digit_run(s: Seq<char>) -> nat
    decreases s.len(),
{
    if s.len() > 0 && is_digit(s[0]) {
        1 + digit_run(s.drop_first())
    } else {
        0
    }
}

pub proof fn lemma_digit_run(s: Seq<char>)
    ensures
        digit_run(s) <= s.len(),
        forall|k: int| 0 <= k < digit_run(s) ==> is_digit(#[trigger] s[k]),
        digit_run(s) < s.len() ==> !is_digit(s[digit_run(s) as int]),
    decreases s.len(),
{
    if s.len() > 0 && is_digit(s[0]) {
        lemma_digit_run(s.drop_first());
        assert forall|k: int| 0 <= k < digit_run(s) implies is_digit(#[trigger] s[k]) by {
            if k > 0 {
                assert(s[k] == s.drop_first()[k - 1]);
            }
        }
        if digit_run(s) < s.len() {
            assert(s[digit_run(s) as int] == s.drop_first()[digit_run(s) - 1]);
        }
    }
}

/// Cuts every decimal part of a number (`3,100` or `8.567`) to at most two digits.
pub open spec fn price_decimals(s: Seq<char>) -> Seq<char>
    decreases s.len(),
{
    if s.len() == 0 {
        Seq::empty()
    } else if !is_digit(s[0]) {
        seq![s[0]] + price_decimals(s.drop_first())
    } else {
        let d = digit_run(s) as int;
        let rest = s.subrange(d, s.len() as int);
        proof {
            lemma_digit_run(s);
        }
        if rest.len() >= 2 && (rest[0] == ',' || rest[0] == '.') && is_digit(rest[1]) {
            let frac = rest.drop_first();
            let e = digit_run(frac) as int;
            proof {
                lemma_digit_run(frac);
            }
            let kept = if e < 2 { e } else { 2 };
            s.subrange(0, d) + seq![rest[0]] + frac.subrange(0, kept) + price_decimals(frac.subrange(e, frac.len() as int))
        } else {
            s.subrange(0, d) + price_decimals(rest)
        }
    }
}

/// Puts exactly one space before every `€` (none at the very start).
pub open spec fn euro_spacing(s: Seq<char>) -> Seq<char>
    decreases s.len(),
{
    if s.len() == 0 {
        Seq::empty()
    } else {
        let p = euro_spacing(s.drop_last());
        if s.last() == '€' {
            let t = crate::normalize::trim_end_spaces(p);
            (if t.len() > 0 { t.push(' ') } else { t }).push('€')
        } else {
            p.push(s.last())
        }
    }
}

/// The display form of a price text: decimals cut to two digits, one space
/// before each euro sign, whitespace normalized.
pub open spec fn price_text(s: Seq<char>) -> Seq<char> {
    normalized(euro_spacing(price_decimals(s)))
}

fn digit_run_exec(v: &[char], from: usize) -> (r: usize)
    requires
        from <= v.len(),
    ensures
        from + r <= v.len(),
        r == digit_run(v@.subrange(from as int, v.len() as int)),
{
    let mut k = from;
    proof {
        lemma_digit_run(v@.subrange(from as int, v.len() as int));
    }
    while k < v.len() && '0' <= v[k] && v[k] <= '9'
        invariant
            from <= k <= v.len(),
            digit_run(v@.subrange(from as int, v.len() as int)) == (k - from) + digit_run(v@.subrange(k as int, v.len() as int)),
        decreases v.len() - k,
    {
        let ghost t = v@.subrange(k as int, v.len() as int);
        assert(t.drop_first() =~= v@.subrange(k + 1, v.len() as int));
        k += 1;
    }
    k - from
}

proof fn lemma_price_decimals_step(s: Seq<char>, i: int)
    requires
        0 <= i < s.len(),
        !is_digit(s[i]),
    ensures
        price_decimals(s.subrange(i, s.len() as int)) == seq![s[i]] + price_decimals(s.subrange(i + 1, s.len() as int)),
{
    let t = s.subrange(i, s.len() as int);
    assert(t.drop_first() =~= s.subrange(i + 1, s.len() as int));
}

/// Cuts decimal parts of numbers to two digits.
pub fn normalize_price_decimals(text: &[char]) -> (r: Vec<char>)
    ensures
        r@ == price_decimals(text@),
{
    let mut out: Vec<char> = Vec::new();
    let mut i: usize = 0;
    let n = text.len();
    assert(text@.subrange(0, n as int) =~= text@);
    while i < n
        invariant
            i <= n,
            n == text.len(),
            out@ + price_decimals(text@.subrange(i as int, n as int)) == price_decimals(text@),
        decreases n - i,
    {
        let ghost s = text@.subrange(i as int, n as int);
        let ch = text[i];
        if !('0' <= ch && ch <= '9') {
            proof {
                lemma_price_decimals_step(text@, i as int);
            }
            let ghost before = out@;
            out.push(ch);
            assert(out@ + price_decimals(text@.subrange(i + 1, n as int)) =~= before + (seq![ch] + price_decimals(text@.subrange(i + 1, n as int))));
            i += 1;
        } else {
            let d = digit_run_exec(text, i);
            proof {
                lemma_digit_run(s);
            }
            let ghost rest = s.subrange(d as int, s.len() as int);
            assert(rest =~= text@.subrange(i + d, n as int));
            let ghost before = out@;
            let mut k = i;
            while k < i + d
                invariant
                    i <= k <= i + d <= n,
                    n == text.len(),
                    out@ == before + text@.subrange(i as int, k as int),
                decreases i + d - k,
            {
                out.push(text[k]);
                k += 1;
                assert(out@ =~= before + text@.subrange(i as int, k as int));
            }
            assert(s.subrange(0, d as int) =~= text@.subrange(i as int, (i + d) as int));
            let j = i + d;
            if n > 0 && j < n - 1 && (text[j] == ',' || text[j] == '.') && '0' <= text[j + 1] && text[j + 1] <= '9' {
                let sep = text[j];
                out.push(sep);
                let e = digit_run_exec(text, j + 1);
                let ghost frac = rest.drop_first();
                assert(frac =~= text@.subrange(j + 1, n as int));
                proof {
                    lemma_digit_run(frac);
                }
                let kept = if e < 2 { e } else { 2 };
                let ghost mid = out@;
                let mut q = j + 1;
                while q < j + 1 + kept
                    invariant
                        j + 1 <= q <= j + 1 + kept <= n,
                        n == text.len(),
                        out@ == mid + text@.subrange(j + 1, q as int),
                    decreases j + 1 + kept - q,
                {
                    out.push(text[q]);
                    q += 1;
                    assert(out@ =~= mid + text@.subrange(j + 1, q as int));
                }
                assert(frac.subrange(0, kept as int) =~= text@.subrange(j + 1, (j + 1 + kept) as int));
                assert(frac.subrange(e as int, frac.len() as int) =~= text@.subrange((j + 1 + e) as int, n as int));
                assert(out@ + price_decimals(text@.subrange((j + 1 + e) as int, n as int))
                    =~= before + price_decimals(s));
                i = j + 1 + e;
            } else {
                assert(out@ + price_decimals(text@.subrange(j as int, n as int)) =~= before + price_decimals(s));
                i = j;
            }
        }
    }
    assert(text@.subrange(n as int, n as int) =~= Seq::<char>::empty());
    assert(out@ =~= out@ + price_decimals(Seq::<char>::empty()));
    out
}

/// Puts exactly one space before each euro sign.
pub fn normalize_euro_spacing(text: &[char]) -> (r: Vec<char>)
    ensures
        r@ == euro_spacing(text@),
{
    let mut out: Vec<char> = Vec::new();
    let mut i: usize = 0;
    while i < text.len()
        invariant
            i <= text.len(),
            out@ == euro_spacing(text@.subrange(0, i as int)),
        decreases text.len() - i,
    {
        let ch = text[i];
        assert(text@.subrange(0, i + 1).drop_last() =~= text@.subrange(0, i as int));
        if ch == '€' {
            let ghost p = out@;
            while out.len() > 0 && out[out.len() - 1] == ' '
                invariant
                    crate::normalize::trim_end_spaces(p) == crate::normalize::trim_end_spaces(out@),
                decreases out.len(),
            {
                let ghost cur = out@;
                out.pop();
                assert(cur.drop_last() =~= out@);
            }
            if out.len() > 0 {
                out.push(' ');
            }
        }
        out.push(ch);
        i += 1;
    }
    assert(text@.subrange(0, text.len() as int) =~= text@);
    out
}

/// Cleans a price text for display.
pub fn normalize_price_text(text: &[char]) -> (r: Vec<char>)
    ensures
        r@ == price_text(text@),
{
    let d = normalize_price_decimals(text);
    let e = normalize_euro_spacing(&d);
    normalize_chars(&e)
}


// ---------------------------------------------------------------- price groups

/// The audience a price segment is for.
#[derive(PartialEq, Eq, Structural, Clone, Copy)]
pub enum PriceGroup {
    Student,
    Staff,
    Guest,
}

/// Price-group visibility filters applied when rendering Compass headings.
#[derive(Clone, Copy)]
pub struct PriceGroups {
    pub student: bool,
    pub staff: bool,
    pub guest: bool,
    pub names: bool,
}

pub open spec fn student_labels() -> Seq<Seq<char>> {
    seq!["student"@, "op"@, "opisk"@, "opiskelija"@]
}

pub open spec fn staff_labels() -> Seq<Seq<char>> {
    seq!["staff"@, "hk"@, "henkilokunta"@, "henkilökunta"@]
}

pub open spec fn guest_labels() -> Seq<Seq<char>> {
    seq!["guest"@, "vieras"@]
}

pub open spec fn all_labels() -> Seq<Seq<char>> {
    student_labels() + staff_labels() + guest_labels()
}

pub open spec fn group_labels(g: PriceGroup) -> Seq<Seq<char>> {
    match g {
        PriceGroup::Student => student_labels(),
        PriceGroup::Staff => staff_labels(),
        PriceGroup::Guest => guest_labels(),
    }
}

fn labels_vec(which: u8) -> (r: Vec<Vec<char>>)
    ensures
        which == 0 ==> deep(r@) == student_labels(),
        which == 1 ==> deep(r@) == staff_labels(),
        which == 2 ==> deep(r@) == guest_labels(),
        which > 2 ==> deep(r@) == all_labels(),
{
    let mut out: Vec<Vec<char>> = Vec::new();
    if which == 0 || which > 2 {
        out.push(str_chars("student"));
        out.push(str_chars("op"));
        out.push(str_chars("opisk"));
        out.push(str_chars("opiskelija"));
    }
    if which == 1 || which > 2 {
        out.push(str_chars("staff"));
        out.push(str_chars("hk"));
        out.push(str_chars("henkilokunta"));
        out.push(str_chars("henkilökunta"));
    }
    if which == 2 || which > 2 {
        out.push(str_chars("guest"));
        out.push(str_chars("vieras"));
    }
    proof {
        if which == 0 {
            assert(deep(out@) =~= student_labels());
        } else if which == 1 {
            assert(deep(out@) =~= staff_labels());
        } else if which == 2 {
            assert(deep(out@) =~= guest_labels());
        } else {
            assert(deep(out@) =~= all_labels());
        }
    }
    out
}

/// Whether the `len` characters at `start` form a whole word: no letter
/// touches them on either side.
pub open spec fn is_word_boundary(text: Seq<char>, start: int, len: int) -> bool {
    &&& (start <= 0 || !unicode_alphabetic(text[start - 1]))
    &&& (start + len >= text.len() || !unicode_alphabetic(text[start + len]))
}

/// Whether `label` occurs in `text` at `i` as a whole word.
pub open spec fn word_at(text: Seq<char>, label: Seq<char>, i: int) -> bool {
    occurs_at(text, label, i) && is_word_boundary(text, i, label.len() as int)
}

/// Whether some label of `labels` occurs in `text` as a whole word.
pub open spec fn has_word_label(text: Seq<char>, labels: Seq<Seq<char>>) -> bool {
    exists|k: int, i: int| 0 <= k < labels.len() && #[trigger] word_at(text, labels[k], i)
}

/// Whether some label of `labels` starts a whole word at `i`.
pub open spec fn label_starts_at(text: Seq<char>, labels: Seq<Seq<char>>, i: int) -> bool {
    exists|k: int| 0 <= k < labels.len() && #[trigger] word_at(text, labels[k], i)
}

fn is_word_boundary_exec(text: &[char], start: usize, len: usize) -> (r: bool)
    requires
        start + len <= text.len(),
    ensures
        r == is_word_boundary(text@, start as int, len as int),
{
    let prev_ok = start == 0 || !char_is_alphabetic(text[start - 1]);
    let end = start + len;
    let next_ok = end >= text.len() || !char_is_alphabetic(text[end]);
    prev_ok && next_ok
}

fn label_starts_at_exec(text: &[char], labels: &Vec<Vec<char>>, i: usize) -> (r: bool)
    ensures
        r == label_starts_at(text@, deep(labels@), i as int),
{
    let mut k: usize = 0;
    while k < labels.len()
        invariant
            k <= labels.len(),
            forall|j: int| 0 <= j < k ==> !word_at(text@, #[trigger] deep(labels@)[j], i as int),
        decreases labels.len() - k,
    {
        assert(deep(labels@)[k as int] == labels@[k as int]@);
        if occurs_at_exec(text, &labels[k], i) && is_word_boundary_exec(text, i, labels[k].len()) {
            assert(word_at(text@, deep(labels@)[k as int], i as int));
            return true;
        }
        k += 1;
    }
    false
}

fn has_any_word_label(text: &[char], labels: &Vec<Vec<char>>) -> (r: bool)
    ensures
        r == has_word_label(text@, deep(labels@)),
{
    let mut i: usize = 0;
    while i < text.len()
        invariant
            i <= text.len(),
            forall|j: int| 0 <= j < i ==> !label_starts_at(text@, deep(labels@), j),
        decreases text.len() - i,
    {
        if label_starts_at_exec(text, labels, i) {
            return true;
        }
        i += 1;
    }
    let last = label_starts_at_exec(text, labels, text.len());
    proof {
        if !last {
            assert forall|k: int, j: int| 0 <= k < deep(labels@).len() implies !#[trigger] word_at(text@, deep(labels@)[k], j) by {
                if word_at(text@, deep(labels@)[k], j) {
                    assert(label_starts_at(text@, deep(labels@), j));
                }
            }
        }
    }
    last
}

/// The audience a lower-cased price segment names by its labels, Student
/// before Staff before Guest.
pub open spec fn classify_lower(lower: Seq<char>) -> PriceGroup {
    if has_word_label(lower, student_labels()) {
        PriceGroup::Student
    } else if has_word_label(lower, staff_labels()) {
        PriceGroup::Staff
    } else {
        PriceGroup::Guest
    }
}

/// The audience a price segment names, its labels compared in lower case.
pub open spec fn classify_group(segment: Seq<char>) -> PriceGroup {
    classify_lower(unicode_lowercase(segment))
}

/// Whether every character of a text is ASCII.
pub open spec fn all_ascii(s: Seq<char>) -> bool {
    forall|i: int| 0 <= i < s.len() ==> (#[trigger] s[i] as u32) < 128
}

fn lowercase_chars(v: &[char]) -> (r: Vec<char>)
    ensures
        r@ == unicode_lowercase(v@),
        all_ascii(v@) ==> r@ == seq_ascii_lower(v@),
{
    let s = chars_to_string(v);
    let lower = str_to_lowercase(s.as_str());
    str_chars(lower.as_str())
}

/// Names the audience of a price segment from its labels.
pub fn classify_compass_price_group(segment: &[char]) -> (r: PriceGroup)
    ensures
        r == classify_group(segment@),
        all_ascii(segment@) ==> r == classify_lower(seq_ascii_lower(segment@)),
{
    let lower = lowercase_chars(segment);
    if has_any_word_label(&lower, &labels_vec(0)) {
        PriceGroup::Student
    } else if has_any_word_label(&lower, &labels_vec(1)) {
        PriceGroup::Staff
    } else {
        PriceGroup::Guest
    }
}

/// The positions below `n` at which some price-group label starts a whole
/// word, ascending.
pub open spec fn label_starts_below(text: Seq<char>, n: int) -> Seq<int>
    decreases n,
{
    if n <= 0 {
        Seq::empty()
    } else if label_starts_at(text, all_labels(), n - 1) {
        label_starts_below(text, n - 1).push(n - 1)
    } else {
        label_starts_below(text, n - 1)
    }
}

pub open spec fn label_starts(text: Seq<char>) -> Seq<int> {
    label_starts_below(text, text.len() as int)
}

pub proof fn lemma_label_starts_sorted(text: Seq<char>, n: int)
    ensures
        forall|a: int, b: int| 0 <= a < b < label_starts_below(text, n).len() ==>
            label_starts_below(text, n)[a] < label_starts_below(text, n)[b],
        forall|a: int| 0 <= a < label_starts_below(text, n).len() ==>
            0 <= #[trigger] label_starts_below(text, n)[a] < n,
    decreases n,
{
    if n > 0 {
        lemma_label_starts_sorted(text, n - 1);
        let p = label_starts_below(text, n - 1);
        let t = label_starts_below(text, n);
        if label_starts_at(text, all_labels(), n - 1) {
            assert forall|a: int, b: int| 0 <= a < b < t.len() implies t[a] < t[b] by {
                if b < p.len() {
                    assert(t[a] == p[a] && t[b] == p[b]);
                } else {
                    assert(t[a] == p[a]);
                }
            }
            assert forall|a: int| 0 <= a < t.len() implies 0 <= #[trigger] t[a] < n by {
                if a < p.len() {
                    assert(t[a] == p[a]);
                }
            }
        }
    }
}

fn group_label_starts(text: &[char]) -> (r: Vec<usize>)
    ensures
        r@.map_values(|x: usize| x as int) == label_starts(text@),
{
    let labels = labels_vec(3);
    let mut out: Vec<usize> = Vec::new();
    let mut i: usize = 0;
    while i < text.len()
        invariant
            i <= text.len(),
            deep(labels@) == all_labels(),
            out@.map_values(|x: usize| x as int) == label_starts_below(text@, i as int),
        decreases text.len() - i,
    {
        if label_starts_at_exec(text, &labels, i) {
            let ghost before = out@;
            out.push(i);
            assert(out@.map_values(|x: usize| x as int) =~= before.map_values(|x: usize| x as int).push(i as int));
        }
        i += 1;
    }
    out
}


// ---------------------------------------------------------------- segments

pub open spec fn clamp(i: int, n: int) -> int {
    if i < 0 { 0 } else if i > n { n } else { i }
}

/// The segments between consecutive label starts `starts[k..]`, each
/// normalized, blank ones dropped.
pub open spec fn segments_from(price: Seq<char>, starts: Seq<int>, k: int) -> Seq<Seq<char>>
    decreases starts.len() - k,
{
    if k < 0 || k >= starts.len() {
        Seq::empty()
    } else {
        let n = price.len() as int;
        let end = if k + 1 < starts.len() { starts[k + 1] } else { n };
        let lo = clamp(starts[k], n);
        let hi = clamp(end, n);
        let seg = normalized(price.subrange(lo, if hi < lo { lo } else { hi }));
        let rest = segments_from(price, starts, k + 1);
        if seg.len() == 0 { rest } else { seq![seg] + rest }
    }
}

/// How a normalized price text splits into one segment per price: at `/`
/// when that gives more than one piece, else in front of every price-group
/// label (found in the lower-cased text), else the whole text.
pub open spec fn price_segments(price: Seq<char>) -> Seq<Seq<char>> {
    let slash = crate::allergens::norm_nonempty(split_on(price, '/'));
    let starts = label_starts(unicode_lowercase(price));
    let segs = segments_from(price, starts, 0);
    if slash.len() > 1 {
        slash
    } else if starts.len() <= 1 {
        if slash.len() > 0 { seq![slash[0]] } else { seq![price] }
    } else if segs.len() == 0 {
        seq![price]
    } else {
        segs
    }
}

fn clamp_exec(i: usize, n: usize) -> (r: usize)
    ensures
        r as int == clamp(i as int, n as int),
{
    if i > n { n } else { i }
}

fn segments_from_exec(price: &[char], starts: &Vec<usize>, k: usize) -> (r: Vec<Vec<char>>)
    requires
        k <= starts.len(),
    ensures
        deep(r@) == segments_from(price@, starts@.map_values(|x: usize| x as int), k as int),
    decreases starts.len() - k,
{
    let ghost st = starts@.map_values(|x: usize| x as int);
    if k >= starts.len() {
        return Vec::new();
    }
    let n = price.len();
    let end = if k + 1 < starts.len() { starts[k + 1] } else { n };
    let a = clamp_exec(starts[k], n);
    let b = clamp_exec(end, n);
    let piece = slice_chars(price, a, if b < a { a } else { b });
    let seg = normalize_chars(&piece);
    let rest = segments_from_exec(price, starts, k + 1);
    if seg.len() == 0 {
        rest
    } else {
        let mut out: Vec<Vec<char>> = Vec::new();
        out.push(seg);
        let all = concat(out, rest);
        all
    }
}

fn concat(a: Vec<Vec<char>>, b: Vec<Vec<char>>) -> (r: Vec<Vec<char>>)
    ensures
        deep(r@) == deep(a@) + deep(b@),
{
    let mut out = a;
    let mut b = b;
    let ghost a0 = deep(out@);
    let ghost b0 = deep(b@);
    out.append(&mut b);
    assert(deep(out@) =~= a0 + b0);
    out
}

/// Splits a normalized price text into one segment per price.
pub fn split_compass_price_segments(price: &[char]) -> (r: Vec<Vec<char>>)
    ensures
        deep(r@) == price_segments(price@),
{
    let pieces = split_chars(price, '/');
    let slash = crate::allergens::norm_nonempty_pub(&pieces);
    if slash.len() > 1 {
        return slash;
    }
    let lower = lowercase_chars(price);
    let starts = group_label_starts(&lower);
    if starts.len() <= 1 {
        if slash.len() > 0 {
            let mut out: Vec<Vec<char>> = Vec::new();
            out.push(crate::seqs::copy_chars(&slash[0]));
            assert(deep(out@) =~= seq![deep(slash@)[0]]);
            return out;
        }
        let mut out: Vec<Vec<char>> = Vec::new();
        out.push(crate::seqs::copy_chars(price));
        assert(deep(out@) =~= seq![price@]);
        return out;
    }
    let segs = segments_from_exec(price, &starts, 0);
    if segs.len() == 0 {
        let mut out: Vec<Vec<char>> = Vec::new();
        out.push(crate::seqs::copy_chars(price));
        assert(deep(out@) =~= seq![price@]);
        return out;
    }
    segs
}

// ---------------------------------------------------------------- labels

pub open spec fn is_label_sep(c: char) -> bool {
    c == ' ' || c == '.' || c == ':' || c == '-' || c == '–'
}

pub open spec fn label_sep_fn() -> spec_fn(char) -> bool {
    |c: char| is_label_sep(c)
}

/// What is left of `clean` after the label `l`, if `l` opens `clean` as a
/// whole word and something follows it.
pub open spec fn after_label(clean: Seq<char>, lower: Seq<char>, l: Seq<char>) -> Option<Seq<char>> {
    let stripped = trim_start_by(clean.subrange(clamp(l.len() as int, clean.len() as int), clean.len() as int), label_sep_fn());
    if starts_with(lower, l) && is_word_boundary(lower, 0, l.len() as int) && stripped.len() > 0 {
        Some(stripped)
    } else {
        None
    }
}

/// The text with its first matching leading group label (and the
/// separators after it) removed, trying `labels[k..]` in order.
pub open spec fn strip_labels_from(clean: Seq<char>, lower: Seq<char>, labels: Seq<Seq<char>>, k: int) -> Seq<char>
    decreases labels.len() - k,
{
    if k < 0 || k >= labels.len() {
        clean
    } else {
        match after_label(clean, lower, labels[k]) {
            Some(t) => t,
            None => strip_labels_from(clean, lower, labels, k + 1),
        }
    }
}

/// A price text without its leading group label: `"opisk. 3,10 €"` reads `"3,10 €"`.
pub open spec fn strip_group_label(text: Seq<char>, labels: Seq<Seq<char>>) -> Seq<char> {
    let clean = normalized(text);
    strip_labels_from(clean, unicode_lowercase(clean), labels, 0)
}

fn trim_start_label_sep(v: &[char]) -> (r: Vec<char>)
    ensures
        r@ == trim_start_by(v@, label_sep_fn()),
{
    let mut start: usize = 0;
    assert(v@.subrange(0, v.len() as int) =~= v@);
    while start < v.len() && (v[start] == ' ' || v[start] == '.' || v[start] == ':' || v[start] == '-' || v[start] == '–')
        invariant
            start <= v.len(),
            trim_start_by(v@, label_sep_fn()) == trim_start_by(v@.subrange(start as int, v.len() as int), label_sep_fn()),
        decreases v.len() - start,
    {
        let ghost rest = v@.subrange(start as int, v.len() as int);
        assert(rest.drop_first() =~= v@.subrange(start + 1, v.len() as int));
        assert(rest[0] == v@[start as int]);
        assert(label_sep_fn()(rest[0]));
        start += 1;
    }
    slice_chars(v, start, v.len())
}

/// Removes a leading price-group label from a price text.
pub fn strip_leading_price_group_label(text: &[char], labels: &Vec<Vec<char>>) -> (r: Vec<char>)
    ensures
        r@ == strip_group_label(text@, deep(labels@)),
{
    let clean = normalize_chars(text);
    let lower = lowercase_chars(&clean);
    let mut k: usize = 0;
    while k < labels.len()
        invariant
            k <= labels.len(),
            clean@ == normalized(text@),
            lower@ == unicode_lowercase(clean@),
            strip_labels_from(clean@, lower@, deep(labels@), 0) == strip_labels_from(clean@, lower@, deep(labels@), k as int),
        decreases labels.len() - k,
    {
        let label = &labels[k];
        assert(deep(labels@)[k as int] == label@);
        let from = clamp_exec(label.len(), clean.len());
        let rest = slice_chars(&clean, from, clean.len());
        let stripped = trim_start_label_sep(&rest);
        if crate::seqs::starts_with_exec(&lower, label) && label.len() <= lower.len()
            && is_word_boundary_exec(&lower, 0, label.len()) && stripped.len() > 0 {
            return stripped;
        }
        k += 1;
    }
    clean
}

// ---------------------------------------------------------------- entries

/// One price of a price text: its audience and its display text.
pub struct PriceEntry {
    pub group: PriceGroup,
    pub text: Vec<char>,
}

pub struct PriceEntrySpec {
    pub group: PriceGroup,
    pub text: Seq<char>,
}

pub open spec fn entries_view(v: Seq<PriceEntry>) -> Seq<PriceEntrySpec> {
    v.map_values(|e: PriceEntry| PriceEntrySpec { group: e.group, text: e.text@ })
}

/// The prices of a price text, one per segment.
pub open spec fn price_entries(price: Seq<char>) -> Seq<PriceEntrySpec> {
    let normalized_price = normalized(price);
    if normalized_price.len() == 0 {
        Seq::empty()
    } else {
        price_segments(normalized_price).map_values(|seg: Seq<char>| PriceEntrySpec {
            group: classify_group(seg),
            text: price_text(seg),
        })
    }
}

/// Reads the prices of a price text.
pub fn parse_compass_price_entries(price: &[char]) -> (r: Vec<PriceEntry>)
    ensures
        entries_view(r@) == price_entries(price@),
{
    let normalized_price = normalize_chars(price);
    if normalized_price.len() == 0 {
        let r: Vec<PriceEntry> = Vec::new();
        assert(entries_view(r@) =~= price_entries(price@));
        return r;
    }
    let segments = split_compass_price_segments(&normalized_price);
    let mut out: Vec<PriceEntry> = Vec::new();
    let mut i: usize = 0;
    while i < segments.len()
        invariant
            i <= segments.len(),
            entries_view(out@) == deep(segments@).subrange(0, i as int).map_values(|seg: Seq<char>| PriceEntrySpec {
                group: classify_group(seg),
                text: price_text(seg),
            }),
        decreases segments.len() - i,
    {
        let group = classify_compass_price_group(&segments[i]);
        let text = normalize_price_text(&segments[i]);
        let ghost before = out@;
        let ghost tv = text@;
        out.push(PriceEntry { group, text });
        assert(deep(segments@)[i as int] == segments@[i as int]@);
        assert(entries_view(out@) =~= entries_view(before).push(PriceEntrySpec { group, text: tv }));
        assert(deep(segments@).subrange(0, i + 1) =~= deep(segments@).subrange(0, i as int).push(segments@[i as int]@));
        assert(entries_view(out@) =~= deep(segments@).subrange(0, i + 1).map_values(|seg: Seq<char>| PriceEntrySpec {
            group: classify_group(seg),
            text: price_text(seg),
        }));
        i += 1;
    }
    assert(deep(segments@).subrange(0, segments.len() as int) =~= deep(segments@));
    out
}

/// The text of an entry, with or without its group label.
pub open spec fn entry_text(e: PriceEntrySpec, show_names: bool) -> Seq<char> {
    if show_names { e.text } else { strip_group_label(e.text, group_labels(e.group)) }
}

pub open spec fn group_shown(g: PriceGroup, groups: PriceGroups) -> bool {
    match g {
        PriceGroup::Student => groups.student,
        PriceGroup::Staff => groups.staff,
        PriceGroup::Guest => groups.guest,
    }
}

/// The texts of the entries whose audience is shown.
pub open spec fn shown_entry_texts(es: Seq<PriceEntrySpec>, groups: PriceGroups) -> Seq<Seq<char>>
    decreases es.len(),
{
    if es.len() == 0 {
        Seq::empty()
    } else {
        let p = shown_entry_texts(es.drop_last(), groups);
        if group_shown(es.last().group, groups) { p.push(entry_text(es.last(), groups.names)) } else { p }
    }
}

pub open spec fn slash_sep() -> Seq<char> {
    seq![' ', '/', ' ']
}

/// The shown prices joined with `" / "`.
pub open spec fn entries_text(es: Seq<PriceEntrySpec>, groups: PriceGroups) -> Seq<char> {
    join(shown_entry_texts(es, groups), slash_sep())
}

/// The text of one entry, with or without its group label.
pub fn price_entry_text(entry: &PriceEntry, show_group_names: bool) -> (r: Vec<char>)
    ensures
        r@ == entry_text(PriceEntrySpec { group: entry.group, text: entry.text@ }, show_group_names),
{
    if show_group_names {
        crate::seqs::copy_chars(&entry.text)
    } else {
        let labels = match entry.group {
            PriceGroup::Student => labels_vec(0),
            PriceGroup::Staff => labels_vec(1),
            PriceGroup::Guest => labels_vec(2),
        };
        strip_leading_price_group_label(&entry.text, &labels)
    }
}

fn slash_sep_vec() -> (r: Vec<char>)
    ensures
        r@ == slash_sep(),
{
    let r = vec![' ', '/', ' '];
    assert(r@ =~= slash_sep());
    r
}

/// Joins the prices whose audience is shown.
pub fn price_text_for_entries(entries: &Vec<PriceEntry>, groups: PriceGroups) -> (r: Vec<char>)
    ensures
        r@ == entries_text(entries_view(entries@), groups),
{
    let ghost es = entries_view(entries@);
    let mut parts: Vec<Vec<char>> = Vec::new();
    let mut i: usize = 0;
    while i < entries.len()
        invariant
            i <= entries.len(),
            es == entries_view(entries@),
            deep(parts@) == shown_entry_texts(es.subrange(0, i as int), groups),
        decreases entries.len() - i,
    {
        let entry = &entries[i];
        assert(es.subrange(0, i + 1).drop_last() =~= es.subrange(0, i as int));
        assert(es.subrange(0, i + 1).last() == es[i as int]);
        let shown = match entry.group {
            PriceGroup::Student => groups.student,
            PriceGroup::Staff => groups.staff,
            PriceGroup::Guest => groups.guest,
        };
        if shown {
            let t = price_entry_text(entry, groups.names);
            let ghost before = parts@;
            parts.push(t);
            assert(deep(parts@) =~= deep(before).push(t@));
        }
        i += 1;
    }
    assert(es.subrange(0, entries.len() as int) =~= es);
    join_chars(&parts, &slash_sep_vec())
}

/// Tietoteknia lists unlabeled prices with the student price last: the last
/// one is the student price, the others are for staff and guests.
pub open spec fn inferred_texts(es: Seq<PriceEntrySpec>, groups: PriceGroups, last: int) -> Seq<Seq<char>>
    decreases es.len(),
{
    if es.len() == 0 {
        Seq::empty()
    } else {
        let p = inferred_texts(es.drop_last(), groups, last);
        let idx = es.len() - 1;
        let shown = if idx == last { groups.student } else { groups.staff || groups.guest };
        if shown { p.push(entry_text(es.last(), groups.names)) } else { p }
    }
}

pub open spec fn has_student_entry(es: Seq<PriceEntrySpec>) -> bool {
    exists|i: int| 0 <= i < es.len() && (#[trigger] es[i]).group == PriceGroup::Student
}

/// Tietoteknia's price display rules.
pub open spec fn tietoteknia_text(es: Seq<PriceEntrySpec>, groups: PriceGroups) -> Seq<char> {
    if es.len() == 0 {
        Seq::empty()
    } else if has_student_entry(es) {
        entries_text(es, groups)
    } else if es.len() == 1 {
        if groups.student || groups.staff || groups.guest { entry_text(es[0], groups.names) } else { Seq::empty() }
    } else {
        join(inferred_texts(es, groups, es.len() - 1), slash_sep())
    }
}

/// Price display for Tietoteknia, whose prices are usually unlabeled.
pub fn tietoteknia_price_text_for_groups(entries: &Vec<PriceEntry>, groups: PriceGroups) -> (r: Vec<char>)
    ensures
        r@ == tietoteknia_text(entries_view(entries@), groups),
{
    let ghost es = entries_view(entries@);
    if entries.len() == 0 {
        return Vec::new();
    }
    let mut has_student = false;
    let mut j: usize = 0;
    while j < entries.len()
        invariant
            j <= entries.len(),
            es == entries_view(entries@),
            has_student == exists|i: int| 0 <= i < j && (#[trigger] es[i]).group == PriceGroup::Student,
        decreases entries.len() - j,
    {
        assert(es[j as int].group == entries@[j as int].group);
        if entries[j].group == PriceGroup::Student {
            has_student = true;
        }
        j += 1;
    }
    if has_student {
        return price_text_for_entries(entries, groups);
    }
    if entries.len() == 1 {
        if groups.student || groups.staff || groups.guest {
            return price_entry_text(&entries[0], groups.names);
        }
        return Vec::new();
    }
    let last_index = entries.len() - 1;
    let mut parts: Vec<Vec<char>> = Vec::new();
    let mut i: usize = 0;
    while i < entries.len()
        invariant
            i <= entries.len(),
            last_index == entries.len() - 1,
            es == entries_view(entries@),
            deep(parts@) == inferred_texts(es.subrange(0, i as int), groups, last_index as int),
        decreases entries.len() - i,
    {
        assert(es.subrange(0, i + 1).drop_last() =~= es.subrange(0, i as int));
        assert(es.subrange(0, i + 1).last() == es[i as int]);
        let shown = if i == last_index { groups.student } else { groups.staff || groups.guest };
        if shown {
            let t = price_entry_text(&entries[i], groups.names);
            let ghost before = parts@;
            parts.push(t);
            assert(deep(parts@) =~= deep(before).push(t@));
        }
        i += 1;
    }
    assert(es.subrange(0, entries.len() as int) =~= es);
    join_chars(&parts, &slash_sep_vec())
}

}
