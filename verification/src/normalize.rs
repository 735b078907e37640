//! Whitespace normalization: the text form every other helper works on.

use vstd::prelude::*;
use crate::text::{char_is_whitespace, chars_to_string, str_chars, unicode_white_space};

verus! {

/// Collapses every run of whitespace in `s` into a single `' '`.
pub open spec fn collapse_ws(s: Seq<char>) -> Seq<char>
    decreases s.len(),
{
    if s.len() == 0 {
        Seq::empty()
    } else {
        let p = collapse_ws(s.drop_last());
        if unicode_white_space(s.last()) {
            if p.len() > 0 && p.last() == ' ' {
                p
            } else {
                p.push(' ')
            }
        } else {
            p.push(s.last())
        }
    }
}

/// Drops leading spaces.
pub open spec fn trim_start_spaces(s: Seq<char>) -> Seq<char>
    decreases s.len(),
{
    if s.len() > 0 && s[0] == ' ' {
        trim_start_spaces(s.drop_first())
    } else {
        s
    }
}

/// Drops trailing spaces.
pub open spec fn trim_end_spaces(s: Seq<char>) -> Seq<char>
    decreases s.len(),
{
    if s.len() > 0 && s.last() == ' ' {
        trim_end_spaces(s.drop_last())
    } else {
        s
    }
}

/// The normalized form of a text: whitespace runs collapsed to one space,
/// then leading and trailing spaces removed.
pub open spec fn normalized(s: Seq<char>) -> Seq<char> {
    trim_end_spaces(trim_start_spaces(collapse_ws(s)))
}

/// A whitespace character that is not a plain space.
pub open spec fn ws_is_space(c: char) -> bool {
    unicode_white_space(c) ==> c == ' '
}

/// A text that normalization leaves unchanged: no whitespace but single
/// inner spaces, none at either end.
pub open spec fn is_normal(s: Seq<char>) -> bool {
    &&& forall|i: int| 0 <= i < s.len() ==> ws_is_space(#[trigger] s[i])
    &&& forall|i: int| 0 <= i < s.len() - 1 ==> !(#[trigger] s[i] == ' ' && s[i + 1] == ' ')
    &&& (s.len() > 0 ==> s[0] != ' ' && s.last() != ' ')
}

proof fn lemma_collapse_shape(s: Seq<char>)
    ensures
        forall|i: int| 0 <= i < collapse_ws(s).len() ==> ws_is_space(#[trigger] collapse_ws(s)[i]),
        forall|i: int| 0 <= i < collapse_ws(s).len() - 1 ==> !(#[trigger] collapse_ws(s)[i] == ' ' && collapse_ws(s)[i + 1] == ' '),
        collapse_ws(s).len() <= s.len(),
    decreases s.len(),
{
    if s.len() > 0 {
        lemma_collapse_shape(s.drop_last());
        let p = collapse_ws(s.drop_last());
        let t = collapse_ws(s);
        assert forall|i: int| 0 <= i < t.len() implies ws_is_space(#[trigger] t[i]) by {
            if i < p.len() {
                assert(t[i] == p[i]);
            }
        }
        assert forall|i: int| 0 <= i < t.len() - 1 implies !(#[trigger] t[i] == ' ' && t[i + 1] == ' ') by {
            if i + 1 < p.len() {
                assert(t[i] == p[i] && t[i + 1] == p[i + 1]);
            } else if i + 1 == p.len() {
                assert(t[i] == p[i]);
            }
        }
    }
}

proof fn lemma_trim_start(s: Seq<char>)
    ensures
        exists|k: int| 0 <= k <= s.len() && trim_start_spaces(s) == s.subrange(k, s.len() as int),
        trim_start_spaces(s).len() > 0 ==> trim_start_spaces(s)[0] != ' ',
    decreases s.len(),
{
    if s.len() > 0 && s[0] == ' ' {
        lemma_trim_start(s.drop_first());
        let k = choose|k: int| 0 <= k <= s.drop_first().len() && trim_start_spaces(s.drop_first()) == s.drop_first().subrange(k, s.drop_first().len() as int);
        assert(s.drop_first().subrange(k, s.drop_first().len() as int) =~= s.subrange(k + 1, s.len() as int));
    } else {
        assert(s.subrange(0, s.len() as int) =~= s);
    }
}

proof fn lemma_trim_end(s: Seq<char>)
    ensures
        exists|k: int| 0 <= k <= s.len() && trim_end_spaces(s) == s.subrange(0, k),
        trim_end_spaces(s).len() > 0 ==> trim_end_spaces(s).last() != ' ',
        s.len() > 0 && s[0] != ' ' ==> trim_end_spaces(s).len() == 0 || trim_end_spaces(s)[0] == s[0],
    decreases s.len(),
{
    if s.len() > 0 && s.last() == ' ' {
        lemma_trim_end(s.drop_last());
        let k = choose|k: int| 0 <= k <= s.drop_last().len() && trim_end_spaces(s.drop_last()) == s.drop_last().subrange(0, k);
        assert(s.drop_last().subrange(0, k) =~= s.subrange(0, k));
    } else {
        assert(s.subrange(0, s.len() as int) =~= s);
    }
}

/// Everything `normalize_text` promises about its result's shape.
pub proof fn lemma_normalized_is_normal(s: Seq<char>)
    ensures
        is_normal(normalized(s)),
        normalized(s).len() <= s.len(),
{
    let c = collapse_ws(s);
    lemma_collapse_shape(s);
    lemma_trim_start(c);
    let a = trim_start_spaces(c);
    let k1 = choose|k: int| 0 <= k <= c.len() && a == c.subrange(k, c.len() as int);
    lemma_trim_end(a);
    let b = trim_end_spaces(a);
    let k2 = choose|k: int| 0 <= k <= a.len() && b == a.subrange(0, k);
    assert forall|i: int| 0 <= i < b.len() implies ws_is_space(#[trigger] b[i]) by {
        assert(b[i] == c[i + k1]);
    }
    assert forall|i: int| 0 <= i < b.len() - 1 implies !(#[trigger] b[i] == ' ' && b[i + 1] == ' ') by {
        assert(b[i] == c[i + k1]);
        assert(b[i + 1] == c[i + 1 + k1]);
    }
}

proof fn lemma_collapse_normal(s: Seq<char>)
    requires
        forall|i: int| 0 <= i < s.len() ==> ws_is_space(#[trigger] s[i]),
        forall|i: int| 0 <= i < s.len() - 1 ==> !(#[trigger] s[i] == ' ' && s[i + 1] == ' '),
    ensures
        collapse_ws(s) == s,
    decreases s.len(),
{
    if s.len() > 0 {
        let p = s.drop_last();
        assert forall|i: int| 0 <= i < p.len() - 1 implies !(#[trigger] p[i] == ' ' && p[i + 1] == ' ') by {
            assert(p[i] == s[i] && p[i + 1] == s[i + 1]);
        }
        assert forall|i: int| 0 <= i < p.len() implies ws_is_space(#[trigger] p[i]) by {
            assert(p[i] == s[i]);
        }
        lemma_collapse_normal(p);
        if unicode_white_space(s.last()) {
            assert(s.last() == ' ');
            if p.len() > 0 {
                assert(!(s[s.len() - 2] == ' ' && s[s.len() - 1] == ' '));
            }
        }
        assert(p.push(s.last()) =~= s);
    }
}

/// Normalizing never lengthens a text.
pub proof fn lemma_normalized_len(s: Seq<char>)
    ensures
        normalized(s).len() <= s.len(),
{
    lemma_collapse_len(s);
    lemma_trim_start(collapse_ws(s));
    lemma_trim_end(trim_start_spaces(collapse_ws(s)));
}

proof fn lemma_collapse_len(s: Seq<char>)
    ensures
        collapse_ws(s).len() <= s.len(),
    decreases s.len(),
{
    if s.len() > 0 {
        lemma_collapse_len(s.drop_last());
    }
}

/// Normalizing is idempotent: a normalized text is its own normal form.
pub proof fn lemma_normalize_idempotent(s: Seq<char>)
    ensures
        normalized(normalized(s)) == normalized(s),
{
    lemma_normalized_is_normal(s);
    lemma_normal_fixed(normalized(s));
}

/// A text of normal shape is left unchanged by normalization.
pub proof fn lemma_normal_fixed(t: Seq<char>)
    requires
        is_normal(t),
    ensures
        normalized(t) == t,
{
    lemma_collapse_normal(t);
    if t.len() > 0 {
        assert(trim_start_spaces(t) == t);
        assert(trim_end_spaces(t) == t);
    }
}

/// The characters of a text other than plain spaces, in order.
pub open spec fn non_space(s: Seq<char>) -> Seq<char>
    decreases s.len(),
{
    if s.len() == 0 {
        Seq::empty()
    } else if s.last() == ' ' {
        non_space(s.drop_last())
    } else {
        non_space(s.drop_last()).push(s.last())
    }
}

/// The characters of a text that are not whitespace, in order.
pub open spec fn non_whitespace(s: Seq<char>) -> Seq<char>
    decreases s.len(),
{
    if s.len() == 0 {
        Seq::empty()
    } else if unicode_white_space(s.last()) {
        non_whitespace(s.drop_last())
    } else {
        non_whitespace(s.drop_last()).push(s.last())
    }
}

proof fn lemma_non_space_concat(a: Seq<char>, b: Seq<char>)
    ensures
        non_space(a + b) == non_space(a) + non_space(b),
    decreases b.len(),
{
    if b.len() == 0 {
        assert(a + b =~= a);
        assert(non_space(a) + non_space(b) =~= non_space(a));
    } else {
        lemma_non_space_concat(a, b.drop_last());
        assert((a + b).drop_last() =~= a + b.drop_last());
        assert((a + b).last() == b.last());
        if b.last() != ' ' {
            assert(non_space(a) + non_space(b.drop_last()).push(b.last()) =~= (non_space(a) + non_space(b.drop_last())).push(b.last()));
        }
    }
}

proof fn lemma_collapse_keeps_words(s: Seq<char>)
    ensures
        non_space(collapse_ws(s)) == non_whitespace(s),
    decreases s.len(),
{
    if s.len() > 0 {
        lemma_collapse_keeps_words(s.drop_last());
        let p = collapse_ws(s.drop_last());
        if unicode_white_space(s.last()) {
            if !(p.len() > 0 && p.last() == ' ') {
                assert(p.push(' ').drop_last() =~= p);
            }
        } else {
            assert(p.push(s.last()).drop_last() =~= p);
        }
    }
}

proof fn lemma_trim_start_keeps_words(s: Seq<char>)
    ensures
        non_space(trim_start_spaces(s)) == non_space(s),
    decreases s.len(),
{
    if s.len() > 0 && s[0] == ' ' {
        lemma_trim_start_keeps_words(s.drop_first());
        lemma_non_space_concat(seq![s[0]], s.drop_first());
        assert(seq![s[0]] + s.drop_first() =~= s);
        assert(seq![s[0]].drop_last() =~= Seq::<char>::empty());
        assert(seq![s[0]].last() == ' ');
        assert(non_space(Seq::<char>::empty()) =~= Seq::<char>::empty());
        assert(non_space(seq![s[0]]) == non_space(seq![s[0]].drop_last()));
        assert(non_space(seq![s[0]]) =~= Seq::<char>::empty());
        assert(Seq::<char>::empty() + non_space(s.drop_first()) =~= non_space(s.drop_first()));
    }
}

proof fn lemma_trim_end_keeps_words(s: Seq<char>)
    ensures
        non_space(trim_end_spaces(s)) == non_space(s),
    decreases s.len(),
{
    if s.len() > 0 && s.last() == ' ' {
        lemma_trim_end_keeps_words(s.drop_last());
    }
}

/// Normalizing keeps every character that is not whitespace, in order,
/// and drops the rest but single inner spaces.
pub proof fn lemma_normalized_keeps_words(s: Seq<char>)
    ensures
        non_space(normalized(s)) == non_whitespace(s),
{
    lemma_collapse_keeps_words(s);
    lemma_trim_start_keeps_words(collapse_ws(s));
    lemma_trim_end_keeps_words(trim_start_spaces(collapse_ws(s)));
}

/// Collapses whitespace runs into single spaces and trims both ends.
pub fn normalize_chars(value: &[char]) -> (r: Vec<char>)
    ensures
        r@ == normalized(value@),
{
    let mut out: Vec<char> = Vec::new();
    let mut i: usize = 0;
    while i < value.len()
        invariant
            i <= value.len(),
            out@ == collapse_ws(value@.take(i as int)),
        decreases value.len() - i,
    {
        let ch = value[i];
        let ghost before = value@.take(i as int);
        assert(value@.take(i + 1).drop_last() =~= before);
        if char_is_whitespace(ch) {
            let last_is_space = out.len() > 0 && out[out.len() - 1] == ' ';
            if !last_is_space {
                out.push(' ');
            }
        } else {
            out.push(ch);
        }
        i += 1;
    }
    assert(value@.take(value.len() as int) =~= value@);
    let ghost c = out@;
    assert(c.subrange(0, c.len() as int) =~= c);
    // trim leading spaces
    let mut start: usize = 0;
    while start < out.len() && out[start] == ' '
        invariant
            start <= out.len(),
            out@ == c,
            trim_start_spaces(c) == trim_start_spaces(c.subrange(start as int, c.len() as int)),
        decreases out.len() - start,
    {
        let ghost rest = c.subrange(start as int, c.len() as int);
        assert(rest.drop_first() =~= c.subrange(start + 1, c.len() as int));
        start += 1;
    }
    let ghost a = c.subrange(start as int, c.len() as int);
    assert(trim_start_spaces(a) == a);
    let mut end: usize = out.len();
    while end > start && out[end - 1] == ' '
        invariant
            start <= end <= out.len(),
            out@ == c,
            trim_end_spaces(a) == trim_end_spaces(c.subrange(start as int, end as int)),
        decreases end,
    {
        let ghost cur = c.subrange(start as int, end as int);
        assert(cur.drop_last() =~= c.subrange(start as int, end - 1));
        end -= 1;
    }
    let mut res: Vec<char> = Vec::new();
    let mut j: usize = start;
    while j < end
        invariant
            start <= j <= end <= out.len(),
            out@ == c,
            res@ == c.subrange(start as int, j as int),
        decreases end - j,
    {
        res.push(out[j]);
        j += 1;
        assert(res@ =~= c.subrange(start as int, j as int));
    }
    res
}

/// Normalizes arbitrary text for display and matching by collapsing whitespace.
pub fn normalize_text(value: &str) -> (r: String)
    ensures
        r@ == normalized(value@),
{
    let chars = str_chars(value);
    let out = normalize_chars(&chars);
    chars_to_string(&out)
}

/// Normalizes an optional string and returns an empty string when missing.
pub fn normalize_optional(value: Option<&str>) -> (r: String)
    ensures
        r@ == match value {
            Some(v) => normalized(v@),
            None => Seq::<char>::empty(),
        },
{
    match value {
        Some(v) => normalize_text(v),
        None => String::new(),
    }
}

}
