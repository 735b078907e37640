//! Properties that hold across calls: of normalized text, of the favorites
//! list, of the fetch bookkeeping, of the in-memory menu cache, of the menu
//! order, of the daily snapshot, of favorite highlights, of popup placement,
//! of text selection, of colors, of the popup's size, of wrapping text, of
//! the content layer's selectable rows, of the paint counters, of allergen
//! codes and their highlights, of price audiences, of month names and of
//! general offers.

use vstd::prelude::*;
use crate::app_state::{
    entry_of, menu_key, output_of, request_or_fresh, retry_delay, sat_add, showing, AppCoreV,
    AppStateV, RequestState, StartOptions, finished,
};
use crate::cache::{key_char_kept, sanitized};
use crate::favorites::{dedupe_norm, has_lower, outside_family, toggle_outcome, variant_family, without_family};
use crate::fetch::{is_snake_case, FetchOutputV, FetchReason};
use crate::menu_payload::{offer_view, first_greater, insert_sorted, keys_sorted, snapshot_fold, sort_stable, with_key, SnapshotMenu};
use crate::normalize::{
    is_normal, lemma_normal_fixed, lemma_normalize_idempotent, lemma_normalized_is_normal, lemma_normalized_keeps_words,
    non_space, non_whitespace, normalized,
};
use crate::refresh::{after_begin, begin_allowed, cycled, key_for, may_start};
use crate::highlights::{
    candidates, favorite_ranges, greedy, lemma_candidates_nonempty, lemma_greedy, lemma_ordered, ordered, overlap_int,
};
use crate::popup_logic::{highlighted, unicode_uppercase, near_point, near_tray, HeaderLayout, Rect, HEADER_HEIGHT};
use crate::popup_size::{
    budget_lookup, size_of_popup, target_lines, BudgetKeyV, CachedLayoutBudget, MAX_DYNAMIC_LINES, POPUP_MAX_WIDTH,
    POPUP_MIN_WIDTH,
};
use crate::themes::rgb_value;
use crate::selection::{lemma_first_hit_is_item_hit, painted_in, press, release, shown_range, SelectionV};
use crate::text::{unicode_lowercase, unicode_white_space};
use crate::content_plan::{layer_plan, lemma_layer_rows_top_down, rows_top_down};
use crate::popup_lines::LineV;
use crate::text_layout::{FontWidths, covered, ellipsis, fitted, lemma_wrap_rows_cover, lemma_wrap_rows_ordered, spans_sorted, spans_within, wrap_rows};
use vstd::utf8::encode_utf8;

use crate::perf::{began_paint, counted_call, finished_paint, max_u64, sat_add_u64, GdiCall, PerfCounters, GDI_CALL_COUNT};

use crate::allergens::{allergen_token, group_tokens, is_token_edge, strip_token_edges, token_edge_fn};
use crate::seqs::{trim_end_by, trim_start_by};
use crate::text::{ascii_lower, ascii_upper, seq_ascii_lower, seq_ascii_upper, unicode_alphabetic};
use crate::api::{en_month, fi_month, ApiOffer};
use crate::price::{classify_lower, student_labels, word_at, PriceGroup};

verus! {

// ---------------------------------------------------------------- favorites

/// A favorites list as `dedupe_normalized` leaves it: every entry
/// normalized and non-blank, no two equal ignoring case.
pub open spec fn deduped_shape(l: Seq<Seq<char>>) -> bool {
    &&& forall|i: int| 0 <= i < l.len() ==> is_normal(#[trigger] l[i]) && l[i].len() > 0
    &&& forall|i: int, j: int| 0 <= i < j < l.len() ==> unicode_lowercase(#[trigger] l[i]) != unicode_lowercase(#[trigger] l[j])
}

proof fn lemma_dedupe_shape(items: Seq<Seq<char>>)
    ensures
        deduped_shape(dedupe_norm(items)),
    decreases items.len(),
{
    if items.len() > 0 {
        lemma_dedupe_shape(items.drop_last());
        let p = dedupe_norm(items.drop_last());
        let n = normalized(items.last());
        lemma_normalized_is_normal(items.last());
        if !(n.len() == 0 || has_lower(p, unicode_lowercase(n))) {
            let l = p.push(n);
            assert forall|i: int, j: int| 0 <= i < j < l.len() implies
                unicode_lowercase(#[trigger] l[i]) != unicode_lowercase(#[trigger] l[j]) by {
                if j == l.len() - 1 {
                    assert(l[i] == p[i]);
                    if unicode_lowercase(p[i]) == unicode_lowercase(n) {
                        assert(has_lower(p, unicode_lowercase(n)));
                    }
                } else {
                    assert(l[i] == p[i] && l[j] == p[j]);
                }
            }
            assert forall|i: int| 0 <= i < l.len() implies is_normal(#[trigger] l[i]) && l[i].len() > 0 by {
                if i < p.len() {
                    assert(l[i] == p[i]);
                }
            }
        }
    }
}

proof fn lemma_dedupe_fixed(l: Seq<Seq<char>>)
    requires
        deduped_shape(l),
    ensures
        dedupe_norm(l) == l,
    decreases l.len(),
{
    if l.len() > 0 {
        let p = l.drop_last();
        assert forall|i: int, j: int| 0 <= i < j < p.len() implies
            unicode_lowercase(#[trigger] p[i]) != unicode_lowercase(#[trigger] p[j]) by {
            assert(p[i] == l[i] && p[j] == l[j]);
        }
        assert forall|i: int| 0 <= i < p.len() implies is_normal(#[trigger] p[i]) && p[i].len() > 0 by {
            assert(p[i] == l[i]);
        }
        lemma_dedupe_fixed(p);
        let last = l.last();
        assert(is_normal(l[l.len() - 1]));
        lemma_normal_fixed(last);
        if has_lower(p, unicode_lowercase(last)) {
            let k = choose|k: int| 0 <= k < p.len() && unicode_lowercase(#[trigger] p[k]) == unicode_lowercase(last);
            assert(l[k] == p[k]);
            assert(unicode_lowercase(l[k]) != unicode_lowercase(l[l.len() - 1]));
        }
        assert(p.push(last) =~= l);
    }
}

/// Deduplicating a favorites list twice gives what deduplicating it once
/// gives (`dedupe_normalized` is idempotent).
pub proof fn law_dedupe_idempotent(items: Seq<Seq<char>>)
    ensures
        dedupe_norm(dedupe_norm(items)) == dedupe_norm(items),
{
    lemma_dedupe_shape(items);
    lemma_dedupe_fixed(dedupe_norm(items));
}

proof fn lemma_dedupe_members(items: Seq<Seq<char>>)
    ensures
        forall|i: int| 0 <= i < dedupe_norm(items).len() ==>
            exists|j: int| 0 <= j < items.len() && #[trigger] dedupe_norm(items)[i] == normalized(items[j]),
    decreases items.len(),
{
    if items.len() > 0 {
        lemma_dedupe_members(items.drop_last());
        let p = dedupe_norm(items.drop_last());
        let d = dedupe_norm(items);
        assert forall|i: int| 0 <= i < d.len() implies
            exists|j: int| 0 <= j < items.len() && #[trigger] d[i] == normalized(items[j]) by {
            if i < p.len() {
                let j = choose|j: int| 0 <= j < items.drop_last().len() && p[i] == normalized(items.drop_last()[j]);
                assert(d[i] == p[i]);
                assert(items.drop_last()[j] == items[j]);
            } else {
                assert(d[i] == normalized(items[items.len() - 1]));
            }
        }
    }
}

proof fn lemma_outside_members(list: Seq<Seq<char>>, key: Seq<char>)
    ensures
        forall|i: int| 0 <= i < outside_family(list, key).len() ==>
            !variant_family(unicode_lowercase(#[trigger] outside_family(list, key)[i]), key)
            && exists|j: int| 0 <= j < list.len() && outside_family(list, key)[i] == normalized(list[j]),
    decreases list.len(),
{
    if list.len() > 0 {
        lemma_outside_members(list.drop_last(), key);
        let p = outside_family(list.drop_last(), key);
        let o = outside_family(list, key);
        assert forall|i: int| 0 <= i < o.len() implies
            !variant_family(unicode_lowercase(#[trigger] o[i]), key)
            && exists|j: int| 0 <= j < list.len() && o[i] == normalized(list[j]) by {
            if i < p.len() {
                assert(o[i] == p[i]);
                let j = choose|j: int| 0 <= j < list.drop_last().len() && p[i] == normalized(list.drop_last()[j]);
                assert(list.drop_last()[j] == list[j]);
            } else {
                assert(o[i] == normalized(list[list.len() - 1]));
            }
        }
    }
}

/// Toggling a snippet that was just added by a toggle removes it again:
/// afterwards no favorite equals it ignoring case.
pub proof fn law_toggle_twice_removes(list: Seq<Seq<char>>, value: Seq<char>)
    requires
        toggle_outcome(list, value).1,
    ensures
        ({
            let key = unicode_lowercase(normalized(value));
            let first = toggle_outcome(list, value).0->0;
            let second = toggle_outcome(first, value);
            &&& !second.1
            &&& second.0 is Some
            &&& forall|k: int| 0 <= k < second.0->0.len() ==> unicode_lowercase(#[trigger] second.0->0[k]) != key
        }),
{
    let n = normalized(value);
    let key = unicode_lowercase(n);
    let pushed = list.push(n);
    let first = dedupe_norm(pushed);
    assert(pushed.drop_last() =~= list);
    lemma_normalize_idempotent(value);
    let p = dedupe_norm(list);
    // the snippet (or an entry equal to it ignoring case) is now in the list
    if has_lower(p, key) {
        let k = choose|k: int| 0 <= k < p.len() && unicode_lowercase(#[trigger] p[k]) == key;
        assert(first == p);
        assert(unicode_lowercase(first[k]) == key);
    } else {
        assert(first == p.push(n));
        assert(unicode_lowercase(first[first.len() - 1]) == key);
    }
    assert(exists|k: int| 0 <= k < first.len() && unicode_lowercase(#[trigger] first[k]) == key);
    // so toggling again removes the family
    let outside = outside_family(first, key);
    let second = dedupe_norm(outside);
    assert(toggle_outcome(first, value).0->0 == second);
    lemma_outside_members(first, key);
    lemma_dedupe_members(outside);
    assert forall|k: int| 0 <= k < second.len() implies unicode_lowercase(#[trigger] second[k]) != key by {
        let j = choose|j: int| 0 <= j < outside.len() && second[k] == normalized(outside[j]);
        let i = choose|i: int| 0 <= i < first.len() && outside[j] == normalized(first[i]);
        lemma_normalize_idempotent(first[i]);
        assert(second[k] == outside[j]);
        assert(!variant_family(unicode_lowercase(outside[j]), key));
    }
}

/// The entries of a list outside the variant family of `key`, in order.
pub open spec fn family_removed(list: Seq<Seq<char>>, key: Seq<char>) -> Seq<Seq<char>>
    decreases list.len(),
{
    if list.len() == 0 {
        Seq::empty()
    } else {
        let p = family_removed(list.drop_last(), key);
        if variant_family(unicode_lowercase(list.last()), key) { p } else { p.push(list.last()) }
    }
}

proof fn lemma_outside_of_saved(list: Seq<Seq<char>>, key: Seq<char>)
    requires
        forall|i: int| 0 <= i < list.len() ==> is_normal(#[trigger] list[i]) && list[i].len() > 0,
    ensures
        outside_family(list, key) == family_removed(list, key),
    decreases list.len(),
{
    if list.len() > 0 {
        let p = list.drop_last();
        assert forall|i: int| 0 <= i < p.len() implies is_normal(#[trigger] p[i]) && p[i].len() > 0 by {
            assert(p[i] == list[i]);
        }
        lemma_outside_of_saved(p, key);
        assert(is_normal(list[list.len() - 1]));
        lemma_normal_fixed(list.last());
    }
}

proof fn lemma_family_removed_shape(list: Seq<Seq<char>>, key: Seq<char>)
    requires
        deduped_shape(list),
    ensures
        deduped_shape(family_removed(list, key)),
        forall|i: int| 0 <= i < family_removed(list, key).len() ==>
            exists|j: int| 0 <= j < list.len() && #[trigger] family_removed(list, key)[i] == list[j],
    decreases list.len(),
{
    if list.len() > 0 {
        let p = list.drop_last();
        assert forall|i: int, j: int| 0 <= i < j < p.len() implies
            unicode_lowercase(#[trigger] p[i]) != unicode_lowercase(#[trigger] p[j]) by {
            assert(p[i] == list[i] && p[j] == list[j]);
        }
        assert forall|i: int| 0 <= i < p.len() implies is_normal(#[trigger] p[i]) && p[i].len() > 0 by {
            assert(p[i] == list[i]);
        }
        lemma_family_removed_shape(p, key);
        let q = family_removed(p, key);
        let r = family_removed(list, key);
        let last = list.last();
        assert forall|i: int| 0 <= i < r.len() implies exists|j: int| 0 <= j < list.len() && #[trigger] r[i] == list[j] by {
            if i < q.len() {
                let j = choose|j: int| 0 <= j < p.len() && q[i] == p[j];
                assert(r[i] == q[i] && p[j] == list[j]);
            } else {
                assert(r[i] == list[list.len() - 1]);
            }
        }
        if !variant_family(unicode_lowercase(last), key) {
            assert forall|i: int, j: int| 0 <= i < j < r.len() implies
                unicode_lowercase(#[trigger] r[i]) != unicode_lowercase(#[trigger] r[j]) by {
                if j == r.len() - 1 {
                    let k = choose|k: int| 0 <= k < p.len() && q[i] == p[k];
                    assert(r[i] == list[k]);
                    assert(r[j] == list[list.len() - 1]);
                } else {
                    assert(r[i] == q[i] && r[j] == q[j]);
                }
            }
            assert forall|i: int| 0 <= i < r.len() implies is_normal(#[trigger] r[i]) && r[i].len() > 0 by {
                if i < q.len() {
                    assert(r[i] == q[i]);
                } else {
                    assert(r[i] == list[list.len() - 1]);
                }
            }
        }
    }
}

/// Toggling a snippet in the favorites as they are loaded (deduplicated
/// from the file's entries): a non-blank snippet is added exactly when no
/// favorite equals it ignoring case, and then the favorites become the
/// old ones with the normalized snippet at the end; else they become the
/// old ones without every entry of the snippet's variant family.
pub proof fn law_toggle_on_loaded_favorites(raw: Seq<Seq<char>>, value: Seq<char>)
    requires
        normalized(value).len() > 0,
    ensures
        ({
            let old = dedupe_norm(raw);
            let n = normalized(value);
            let key = unicode_lowercase(n);
            let out = toggle_outcome(old, value);
            &&& out.1 == !(exists|k: int| 0 <= k < old.len() && unicode_lowercase(#[trigger] old[k]) == key)
            &&& out.1 ==> out.0 == Some(old.push(n))
            &&& !out.1 ==> out.0 == Some(family_removed(old, key))
        }),
{
    let old = dedupe_norm(raw);
    let n = normalized(value);
    let key = unicode_lowercase(n);
    lemma_dedupe_shape(raw);
    lemma_normalized_is_normal(value);
    if exists|k: int| 0 <= k < old.len() && unicode_lowercase(#[trigger] old[k]) == key {
        lemma_normalize_idempotent(value);
        lemma_outside_of_saved(old, key);
        lemma_family_removed_shape(old, key);
        lemma_dedupe_fixed(family_removed(old, key));
    } else {
        let l = old.push(n);
        assert forall|i: int, j: int| 0 <= i < j < l.len() implies
            unicode_lowercase(#[trigger] l[i]) != unicode_lowercase(#[trigger] l[j]) by {
            assert(l[i] == old[i]);
            if j < old.len() {
                assert(l[j] == old[j]);
            }
        }
        assert forall|i: int| 0 <= i < l.len() implies is_normal(#[trigger] l[i]) && l[i].len() > 0 by {
            if i < old.len() {
                assert(l[i] == old[i]);
            }
        }
        lemma_dedupe_fixed(l);
    }
}

/// Normalizing a text leaves it in normal form (no whitespace but single
/// inner spaces, none at either end), is idempotent, and keeps every
/// character that is not whitespace, in order.
pub proof fn law_normalized_text(s: Seq<char>)
    ensures
        is_normal(normalized(s)),
        normalized(normalized(s)) == normalized(s),
        non_space(normalized(s)) == non_whitespace(s),
{
    lemma_normalized_is_normal(s);
    lemma_normalize_idempotent(s);
    lemma_normalized_keeps_words(s);
}

/// Each fetch reason has its own name in the logs (`as_str` gives
/// `name`): two reasons share a name only when they are the same reason,
/// and every name is non-empty lowercase snake case.
pub proof fn law_fetch_reason_names(a: FetchReason, b: FetchReason)
    ensures
        (a.name() == b.name()) <==> (a == b),
        is_snake_case(a.name()),
{
    a.lemma_name_shape();
    b.lemma_name_shape();
    if a.name() == b.name() {
        assert(a.name_key() == b.name_key());
    }
}

// ---------------------------------------------------------------- fetch bookkeeping

/// Retry delays never shrink as failures accumulate, and never exceed five minutes.
pub proof fn law_retry_delay_monotone(a: int, b: int)
    requires
        0 <= a <= b,
    ensures
        retry_delay(a) <= retry_delay(b) <= 300_000,
        retry_delay(a) >= 10_000,
{
}

/// After a failed fetch, no fetch for the same key starts (unless it
/// bypasses the cooldown) for at least the shortest retry delay.
pub proof fn law_failure_blocks_retry(m: Map<Seq<char>, RequestState>, key: Seq<char>, reason: FetchReason, now: i64, options: StartOptions, t: i64)
    requires
        !options.bypass_cooldown,
        now <= t < now + 10_000,
        now <= i64::MAX - 300_000,
    ensures
        finished(m, key, reason, false, now).1 >= 10_000,
        !may_start(finished(m, key, reason, false, now).0[key], options, t),
{
    let e = request_or_fresh(m, key);
    let failures = if e.consecutive_failures == usize::MAX { usize::MAX } else { (e.consecutive_failures + 1) as usize };
    law_retry_delay_monotone(0, failures as int);
}

/// A successful fetch clears the failure count and the cooldown of its key,
/// so the next fetch for it may start at any later time.
pub proof fn law_success_clears_cooldown(m: Map<Seq<char>, RequestState>, key: Seq<char>, reason: FetchReason, now: i64, options: StartOptions, t: i64)
    requires
        t >= 0,
    ensures
        finished(m, key, reason, true, now).1 == 0,
        finished(m, key, reason, true, now).0[key].consecutive_failures == 0,
        may_start(finished(m, key, reason, true, now).0[key], options, t),
{
}

/// While a fetch is in flight, no other fetch for the same restaurant and
/// fetch language starts, whatever its options.
pub proof fn law_in_flight_blocks(v: AppCoreV, code: Seq<char>, reason: FetchReason, options: StartOptions, now: i64, later: StartOptions, t: i64)
    requires
        begin_allowed(v, code, options, now),
    ensures
        !begin_allowed(after_begin(v, code, reason, options, now), code, later, t),
{
    let w = after_begin(v, code, reason, options, now);
    assert(w.state.settings == v.state.settings);
    assert(key_for(w.state.settings, code) == key_for(v.state.settings, code));
}

// ---------------------------------------------------------------- memory cache

/// What the memory cache gives back for a restaurant and UI language is
/// what was last stored for them: loading it shows the stored result.
pub proof fn law_memory_read_after_write(v: AppCoreV, code: Seq<char>, language: Seq<char>, r: FetchOutputV, today: Seq<char>)
    ensures
        ({
            let key = menu_key(code, language);
            let w = AppCoreV { memory: v.memory.insert(key, entry_of(r)), ..v };
            &&& w.memory.contains_key(key)
            &&& showing(w.state, output_of(w.memory[key]), today) == showing(v.state, r, today)
        }),
{
}

// ---------------------------------------------------------------- menu order

proof fn lemma_with_key_add<V>(a: Seq<(int, V)>, b: Seq<(int, V)>, k: int)
    ensures
        with_key(a + b, k) == with_key(a, k) + with_key(b, k),
    decreases b.len(),
{
    if b.len() == 0 {
        assert(a + b =~= a);
        assert(with_key(a, k) + with_key(b, k) =~= with_key(a, k));
    } else {
        lemma_with_key_add(a, b.drop_last(), k);
        assert((a + b).drop_last() =~= a + b.drop_last());
        assert((a + b).last() == b.last());
        if b.last().0 == k {
            assert(with_key(a, k) + with_key(b.drop_last(), k).push(b.last())
                =~= (with_key(a, k) + with_key(b.drop_last(), k)).push(b.last()));
        }
    }
}

proof fn lemma_with_key_none<V>(s: Seq<(int, V)>, k: int)
    requires
        forall|i: int| 0 <= i < s.len() ==> (#[trigger] s[i]).0 != k,
    ensures
        with_key(s, k) == Seq::<(int, V)>::empty(),
    decreases s.len(),
{
    if s.len() > 0 {
        assert forall|i: int| 0 <= i < s.drop_last().len() implies (#[trigger] s.drop_last()[i]).0 != k by {
            assert(s.drop_last()[i] == s[i]);
        }
        lemma_with_key_none(s.drop_last(), k);
        assert(s[s.len() - 1].0 != k);
    }
}

proof fn lemma_first_greater_split<V>(s: Seq<(int, V)>, k: int)
    requires
        keys_sorted(s),
    ensures
        0 <= first_greater(s, k) <= s.len(),
        forall|j: int| 0 <= j < first_greater(s, k) ==> (#[trigger] s[j]).0 <= k,
        forall|j: int| first_greater(s, k) <= j < s.len() ==> (#[trigger] s[j]).0 > k,
    decreases s.len(),
{
    if s.len() > 0 {
        if s[0].0 > k {
            assert forall|j: int| 0 <= j < s.len() implies (#[trigger] s[j]).0 > k by {
                if j > 0 {
                    assert(s[0].0 <= s[j].0);
                }
            }
        } else {
            let t = s.drop_first();
            assert forall|i: int, j: int| 0 <= i < j < t.len() implies (#[trigger] t[i]).0 <= (#[trigger] t[j]).0 by {
                assert(t[i] == s[i + 1] && t[j] == s[j + 1]);
            }
            lemma_first_greater_split(t, k);
            let f = first_greater(t, k);
            assert forall|j: int| 0 <= j < f + 1 implies (#[trigger] s[j]).0 <= k by {
                if j > 0 {
                    assert(s[j] == t[j - 1]);
                }
            }
            assert forall|j: int| f + 1 <= j < s.len() implies (#[trigger] s[j]).0 > k by {
                assert(s[j] == t[j - 1]);
            }
        }
    }
}

/// The menu order: groups come out sorted by their sort key, the groups
/// of one key keep the order they had in the payload, and none is lost.
pub proof fn law_menu_order<V>(s: Seq<(int, V)>)
    ensures
        sort_stable(s).len() == s.len(),
        keys_sorted(sort_stable(s)),
        forall|k: int| #[trigger] with_key(sort_stable(s), k) == with_key(s, k),
    decreases s.len(),
{
    if s.len() > 0 {
        let p = s.drop_last();
        let e = s.last();
        law_menu_order(p);
        let t = sort_stable(p);
        lemma_first_greater_split(t, e.0);
        let f = first_greater(t, e.0);
        let r = t.insert(f, e);
        assert(sort_stable(s) == r);
        assert(r =~= t.take(f) + seq![e] + t.skip(f));
        assert forall|i: int, j: int| 0 <= i < j < r.len() implies (#[trigger] r[i]).0 <= (#[trigger] r[j]).0 by {
            if j < f {
                assert(r[i] == t[i] && r[j] == t[j]);
            } else if j == f {
                assert(r[i] == t[i]);
            } else if i < f {
                assert(r[i] == t[i] && r[j] == t[j - 1]);
            } else if i == f {
                assert(r[j] == t[j - 1]);
            } else {
                assert(r[i] == t[i - 1] && r[j] == t[j - 1]);
            }
        }
        assert forall|k: int| #[trigger] with_key(r, k) == with_key(s, k) by {
            lemma_with_key_add(t.take(f) + seq![e], t.skip(f), k);
            lemma_with_key_add(t.take(f), seq![e], k);
            lemma_with_key_add(t.take(f), t.skip(f), k);
            assert(t.take(f) + t.skip(f) =~= t);
            let one = seq![e];
            assert(one.drop_last() =~= Seq::<(int, V)>::empty());
            assert(one.last() == e);
            assert(with_key(one.drop_last(), k) =~= Seq::<(int, V)>::empty());
            if k == e.0 {
                assert forall|i: int| 0 <= i < t.skip(f).len() implies (#[trigger] t.skip(f)[i]).0 != k by {
                    assert(t.skip(f)[i] == t[i + f]);
                }
                lemma_with_key_none(t.skip(f), k);
                assert(with_key(one, k) =~= seq![e]);
                assert(with_key(r, k) =~= with_key(t, k).push(e));
            } else {
                assert(with_key(one, k) =~= Seq::<(int, V)>::empty());
                assert(with_key(r, k) =~= with_key(t, k));
            }
        }
    }
}

// ---------------------------------------------------------------- snapshot

/// A daily snapshot gives each restaurant at most once.
pub proof fn law_snapshot_codes_distinct(menus: Seq<SnapshotMenu>, language: Seq<char>)
    ensures
        forall|i: int, j: int| 0 <= i < j < snapshot_fold(menus, language).1.len() ==>
            (#[trigger] snapshot_fold(menus, language).1[i]).0 != (#[trigger] snapshot_fold(menus, language).1[j]).0,
        forall|i: int| 0 <= i < snapshot_fold(menus, language).1.len() ==>
            snapshot_fold(menus, language).0.contains((#[trigger] snapshot_fold(menus, language).1[i]).0),
    decreases menus.len(),
{
    if menus.len() > 0 {
        law_snapshot_codes_distinct(menus.drop_last(), language);
        let (seen, kept) = snapshot_fold(menus.drop_last(), language);
        let (seen2, kept2) = snapshot_fold(menus, language);
        assert forall|i: int| 0 <= i < kept2.len() implies seen2.contains((#[trigger] kept2[i]).0) by {
            if i < kept.len() {
                assert(kept2[i] == kept[i]);
                let w = choose|w: int| 0 <= w < seen.len() && seen[w] == kept[i].0;
                if seen2.len() > seen.len() {
                    assert(seen2[w] == seen[w]);
                }
            } else {
                assert(seen2[seen2.len() - 1] == kept2[i].0);
            }
        }
        assert forall|i: int, j: int| 0 <= i < j < kept2.len() implies (#[trigger] kept2[i]).0 != (#[trigger] kept2[j]).0 by {
            if j < kept.len() {
                assert(kept2[i] == kept[i] && kept2[j] == kept[j]);
            } else {
                assert(kept2[i] == kept[i]);
                assert(seen.contains(kept[i].0));
            }
        }
    }
}

// ---------------------------------------------------------------- small rules

/// Cycling the selection one step forward and then one step back (or back
/// and then forward) returns to where it was.
pub proof fn law_cycle_round_trip(p: int, n: int)
    requires
        0 <= p < n,
    ensures
        cycled(cycled(p, 1, n), -1, n) == p,
        cycled(cycled(p, -1, n), 1, n) == p,
        0 <= cycled(p, 1, n) < n,
        0 <= cycled(p, -1, n) < n,
{
}

/// A cache file name segment holds only ASCII letters, digits, `.`, `_` and
/// `-`: no path separator or other character can reach the file name.
pub proof fn law_cache_segment_is_safe(s: Seq<char>)
    ensures
        sanitized(s).len() == s.len(),
        forall|i: int| 0 <= i < sanitized(s).len() ==> key_char_kept(#[trigger] sanitized(s)[i]),
{
}


// ---------------------------------------------------------------- favorite highlights

/// The favorite highlights of a text never overlap and come in text order:
/// each range is non-empty and ends at or before the next one starts.
pub proof fn law_favorite_ranges_disjoint_in_order(text: Seq<char>, snippets: Seq<Seq<char>>)
    ensures
        forall|i: int| 0 <= i < favorite_ranges(text, snippets).len() ==>
            (#[trigger] favorite_ranges(text, snippets)[i]).0 < favorite_ranges(text, snippets)[i].1,
        forall|i: int, j: int| 0 <= i < j < favorite_ranges(text, snippets).len() ==>
            (#[trigger] favorite_ranges(text, snippets)[i]).1 <= (#[trigger] favorite_ranges(text, snippets)[j]).0,
{
    let r = favorite_ranges(text, snippets);
    if text.len() > 0 && snippets.len() > 0 {
        let pats = snippets.map_values(|s: Seq<char>| encode_utf8(s));
        let found = candidates(encode_utf8(text), encode_utf8(unicode_lowercase(text)), pats);
        lemma_candidates_nonempty(encode_utf8(text), encode_utf8(unicode_lowercase(text)), pats);
        let by_length = ordered(found, false);
        lemma_ordered(found, false);
        let kept = greedy(by_length);
        lemma_greedy(by_length);
        assert forall|i: int| 0 <= i < kept.len() implies (#[trigger] kept[i]).0 < kept[i].1 by {
            let j = choose|j: int| 0 <= j < by_length.len() && by_length[j] == kept[i];
            assert(by_length[j].0 < by_length[j].1);
        }
        lemma_ordered(kept, true);
        assert(r == ordered(kept, true));
        assert forall|i: int, j: int| 0 <= i < j < r.len() implies (#[trigger] r[i]).1 <= (#[trigger] r[j]).0 by {
            assert(!overlap_int(r[i], r[j]));
            assert(r[i].0 <= r[j].0);
        }
    }
}


// ---------------------------------------------------------------- popup placement

/// A popup no larger than its monitor's work area is placed inside it,
/// whether it opens at a point or from a tray icon.
pub proof fn law_popup_inside_work_area(width: int, height: int, x: int, y: int, tray: Rect, work: Rect)
    requires
        width <= work.right - work.left,
        height <= work.bottom - work.top,
    ensures
        work.left <= near_point(width, height, x, y, work).0,
        near_point(width, height, x, y, work).0 + width <= work.right,
        work.top <= near_point(width, height, x, y, work).1,
        near_point(width, height, x, y, work).1 + height <= work.bottom,
        work.left <= near_tray(width, height, tray, work).0,
        near_tray(width, height, tray, work).0 + width <= work.right,
        work.top <= near_tray(width, height, tray, work).1,
        near_tray(width, height, tray, work).1 + height <= work.bottom,
{
}

// ---------------------------------------------------------------- text selection

/// Pressing and releasing the mouse at the same point, with nothing moved
/// in between, selects no snippet: the release only clears the selection.
pub proof fn law_click_selects_nothing(s: SelectionV, window: u64, x: i32, y: i32)
    requires
        press(s, window, x, y).1,
    ensures
        release(press(s, window, x, y).0, window, x, y) == Some(None::<Seq<char>>),
{
    let l = s.layout->0;
    lemma_first_hit_is_item_hit(l.rows, y);
}

/// Once the selection is cancelled, no drag is active and no range is
/// painted, in any window.
pub proof fn law_cancelled_selection_is_gone(s: SelectionV, window: u64)
    ensures
        !(painted_in(SelectionV { layout: s.layout, drag: None }, window) && SelectionV { layout: s.layout, drag: None }.drag is Some),
        shown_range(SelectionV { layout: s.layout, drag: None }, window) is None,
{
}

// ---------------------------------------------------------------- colors

/// Splitting a color made of three channels gives the channels back.
pub proof fn law_color_channels_round_trip(r: u8, g: u8, b: u8)
    ensures
        rgb_value(r, g, b) % 256 == r,
        (rgb_value(r, g, b) / 256) % 256 == g,
        (rgb_value(r, g, b) / 65536) % 256 == b,
{
    let v = r as int + 256 * (g as int) + 65536 * (b as int);
    assert(0 <= v < 0x1_000000);
    assert(rgb_value(r, g, b) == v);
    assert(v % 256 == r) by (nonlinear_arith)
        requires
            v == r as int + 256 * (g as int) + 65536 * (b as int),
            0 <= r < 256,
            0 <= g < 256,
            0 <= b < 256,
    ;
    assert((v / 256) % 256 == g) by (nonlinear_arith)
        requires
            v == r as int + 256 * (g as int) + 65536 * (b as int),
            0 <= r < 256,
            0 <= g < 256,
            0 <= b < 256,
    ;
    assert((v / 65536) % 256 == b) by (nonlinear_arith)
        requires
            v == r as int + 256 * (g as int) + 65536 * (b as int),
            0 <= r < 256,
            0 <= g < 256,
            0 <= b < 256,
    ;
}

// ---------------------------------------------------------------- popup size

/// A kept layout budget is found again for the key and cache signatures it
/// was kept with, and for no other key or signatures.
pub proof fn law_budget_cache_read_after_write(
    key: BudgetKeyV,
    signatures: Seq<(Seq<char>, i64)>,
    budget: CachedLayoutBudget,
    other_key: BudgetKeyV,
    other_signatures: Seq<(Seq<char>, i64)>,
)
    ensures
        budget_lookup(Some((key, signatures, budget)), key, signatures) == Some(budget),
        (other_key != key || other_signatures != signatures) ==> budget_lookup(Some((key, signatures, budget)), other_key, other_signatures) is None,
{
}

/// The popup is never narrower or wider than its limits, and never lower
/// than the header and 120 pixels.
pub proof fn law_popup_size_within_limits(content_width: i32, budget: CachedLayoutBudget, current_wrapped_lines: usize, font_height: i32)
    ensures
        POPUP_MIN_WIDTH <= size_of_popup(content_width, budget, current_wrapped_lines, font_height).0 <= POPUP_MAX_WIDTH,
        size_of_popup(content_width, budget, current_wrapped_lines, font_height).1 >= HEADER_HEIGHT + 120,
        target_lines(budget, current_wrapped_lines) <= MAX_DYNAMIC_LINES,
{
}

// ---------------------------------------------------------------- text layout

/// Wrapping cuts the normalized text into rows that lie within it, in
/// order, without overlapping, and gives at least one row unless the text
/// is blank, whatever widths the measuring gives.
pub proof fn law_wrapped_rows_in_order(text: Seq<char>, max_width: int, w: spec_fn(Seq<char>) -> int)
    ensures
        spans_within(wrap_rows(text, max_width, w), 0, normalized(text).len() as int),
        spans_sorted(wrap_rows(text, max_width, w)),
        wrap_rows(text, max_width, w).len() == 0 <==> normalized(text).len() == 0,
{
    lemma_wrap_rows_ordered(text, max_width, w);
}

/// Wrapping loses no text: every character of the normalized text that is
/// no whitespace lies in one of the rows, whatever widths the measuring
/// gives.
pub proof fn law_wrapping_loses_no_text(text: Seq<char>, max_width: int, w: spec_fn(Seq<char>) -> int)
    ensures
        forall|i: int| 0 <= i < normalized(text).len() && !unicode_white_space(#[trigger] normalized(text)[i])
            ==> covered(wrap_rows(text, max_width, w), i),
{
    lemma_wrap_rows_cover(text, max_width, w);
}

/// A text that does not fit is clipped to something ending in the
/// ellipsis (the ellipsis alone when nothing more fits), unless there is
/// no room at all.
pub proof fn law_clipped_text_ends_with_ellipsis(text: Seq<char>, max_width: int, w: spec_fn(Seq<char>) -> int)
    requires
        max_width > 0,
        normalized(text).len() > 0,
        w(normalized(text)) > max_width,
    ensures
        fitted(text, max_width, w).len() >= 3,
        fitted(text, max_width, w).subrange(fitted(text, max_width, w).len() - 3, fitted(text, max_width, w).len() as int) == ellipsis(),
{
    let r = fitted(text, max_width, w);
    assert(r.subrange(r.len() - 3, r.len() as int) =~= ellipsis());
}

/// Clipping leaves a text that already fits as it is (normalized), and
/// clipping the clipped text again changes nothing when it fitted.
pub proof fn law_fitting_text_is_kept(text: Seq<char>, max_width: int, w: spec_fn(Seq<char>) -> int)
    requires
        max_width > 0,
        w(normalized(text)) <= max_width,
    ensures
        fitted(text, max_width, w) == normalized(text),
        fitted(fitted(text, max_width, w), max_width, w) == fitted(text, max_width, w),
{
    lemma_normalize_idempotent(text);
}

/// The rows a painted layer offers for selecting lie from top to bottom in
/// order (so a point is looked up in the order the rows are drawn),
/// whatever the widths, whenever the line height is not negative.
pub proof fn law_selectable_rows_top_down(
    title: Seq<char>,
    lines: Seq<LineV>,
    width: int,
    content_width: int,
    layout: HeaderLayout,
    font_height: int,
    line_height: int,
    favorites: Seq<Seq<char>>,
    selection: Option<(int, int, int)>,
    capture: bool,
    y_offset: int,
    f: FontWidths,
)
    requires
        line_height >= 0,
    ensures
        rows_top_down(
            layer_plan(title, lines, width, content_width, layout, font_height, line_height, favorites, selection, capture, y_offset, f).rows,
        ),
{
    lemma_layer_rows_top_down(title, lines, width, content_width, layout, font_height, line_height, favorites, selection, capture, y_offset, f);
}

// ---------------------------------------------------------------- paint counters

/// How many of `calls` are of the kind counted in slot `s`.
pub open spec fn slot_count(calls: Seq<GdiCall>, s: int) -> int
    decreases calls.len(),
{
    if calls.len() == 0 {
        0
    } else {
        slot_count(calls.drop_last(), s) + if calls.last().slot() == s { 1int } else { 0int }
    }
}

proof fn lemma_slot_count_bound(calls: Seq<GdiCall>, s: int)
    ensures
        0 <= slot_count(calls, s) <= calls.len(),
    decreases calls.len(),
{
    if calls.len() > 0 {
        lemma_slot_count_bound(calls.drop_last(), s);
    }
}

proof fn lemma_paint_prefix(c0: PerfCounters, states: Seq<PerfCounters>, calls: Seq<GdiCall>, k: int)
    requires
        c0.wf(),
        c0.paints < u64::MAX,
        states.len() == calls.len() + 1,
        calls.len() <= u64::MAX,
        forall|s: int| 0 <= s < GDI_CALL_COUNT ==> c0.gdi_calls@[s] + calls.len() <= u64::MAX,
        began_paint(c0, states[0]),
        forall|i: int| 0 <= i < calls.len() ==> counted_call(#[trigger] states[i], states[i + 1], calls[i]),
        0 <= k <= calls.len(),
    ensures
        states[k] == (PerfCounters {
            paints: (c0.paints + 1) as u64,
            paint_active: true,
            current_paint_calls: k as u64,
            gdi_calls: states[k].gdi_calls,
            ..c0
        }),
        states[k].gdi_calls@.len() == GDI_CALL_COUNT,
        forall|s: int| 0 <= s < GDI_CALL_COUNT ==> #[trigger] states[k].gdi_calls@[s] == c0.gdi_calls@[s] + slot_count(calls.take(k), s),
    decreases k,
{
    if k == 0 {
        assert forall|s: int| 0 <= s < GDI_CALL_COUNT implies #[trigger] states[0].gdi_calls@[s] == c0.gdi_calls@[s] + slot_count(calls.take(0), s) by {
            assert(calls.take(0).len() == 0);
        }
    } else {
        lemma_paint_prefix(c0, states, calls, k - 1);
        assert(counted_call(states[k - 1], states[k], calls[k - 1]));
        assert(calls.take(k).drop_last() =~= calls.take(k - 1));
        assert(calls.take(k).last() == calls[k - 1]);
        let slot = calls[k - 1].slot();
        lemma_slot_count_bound(calls.take(k - 1), slot);
        assert(states[k - 1].gdi_calls@[slot] == c0.gdi_calls@[slot] + slot_count(calls.take(k - 1), slot));
        assert forall|s: int| 0 <= s < GDI_CALL_COUNT implies #[trigger] states[k].gdi_calls@[s] == c0.gdi_calls@[s] + slot_count(calls.take(k), s) by {
            lemma_slot_count_bound(calls.take(k - 1), s);
        }
    }
}

/// One paint counts itself and its API calls: starting a paint, counting
/// the calls `calls` and ending the paint after `elapsed_ns` adds one
/// paint, adds to each call kind's counter the calls of that kind, keeps
/// the largest call count per paint, adds the time, and leaves every
/// other counter as it was. (The counters must have room for the paint and
/// its calls, as their increments require.)
pub proof fn law_paint_counts_its_calls(
    c0: PerfCounters,
    states: Seq<PerfCounters>,
    calls: Seq<GdiCall>,
    c_end: PerfCounters,
    elapsed_ns: u64,
)
    requires
        c0.wf(),
        c0.paints < u64::MAX,
        calls.len() <= u64::MAX,
        forall|s: int| 0 <= s < GDI_CALL_COUNT ==> c0.gdi_calls@[s] + calls.len() <= u64::MAX,
        states.len() == calls.len() + 1,
        began_paint(c0, states[0]),
        forall|i: int| 0 <= i < calls.len() ==> counted_call(#[trigger] states[i], states[i + 1], calls[i]),
        finished_paint(states[calls.len() as int], c_end, elapsed_ns),
    ensures
        c_end == (PerfCounters {
            paints: (c0.paints + 1) as u64,
            paint_active: false,
            current_paint_calls: calls.len() as u64,
            gdi_calls: c_end.gdi_calls,
            paint_ns: sat_add_u64(c0.paint_ns, elapsed_ns),
            max_paint_ns: max_u64(c0.max_paint_ns, elapsed_ns),
            max_calls_per_paint: max_u64(c0.max_calls_per_paint, calls.len() as u64),
            ..c0
        }),
        c_end.paints == c0.paints + 1,
        forall|s: int| 0 <= s < GDI_CALL_COUNT ==> #[trigger] c_end.gdi_calls@[s] == c0.gdi_calls@[s] + slot_count(calls, s),
{
    lemma_paint_prefix(c0, states, calls, calls.len() as int);
    assert(calls.take(calls.len() as int) =~= calls);
}

// ---------------------------------------------------------------- allergen tokens

proof fn lemma_trim_start_edges(p: Seq<char>, w: Seq<char>)
    requires
        forall|i: int| 0 <= i < p.len() ==> is_token_edge(#[trigger] p[i]),
        w.len() > 0,
        !is_token_edge(w[0]),
    ensures
        trim_start_by(p + w, token_edge_fn()) == w,
    decreases p.len(),
{
    if p.len() == 0 {
        assert(p + w =~= w);
    } else {
        assert((p + w).drop_first() =~= p.drop_first() + w);
        assert((p + w)[0] == p[0]);
        assert forall|i: int| 0 <= i < p.drop_first().len() implies is_token_edge(#[trigger] p.drop_first()[i]) by {
            assert(p.drop_first()[i] == p[i + 1]);
        }
        lemma_trim_start_edges(p.drop_first(), w);
    }
}

proof fn lemma_trim_end_edges(w: Seq<char>, q: Seq<char>)
    requires
        forall|i: int| 0 <= i < q.len() ==> is_token_edge(#[trigger] q[i]),
        w.len() > 0,
        !is_token_edge(w.last()),
    ensures
        trim_end_by(w + q, token_edge_fn()) == w,
    decreases q.len(),
{
    if q.len() == 0 {
        assert(w + q =~= w);
    } else {
        assert((w + q).drop_last() =~= w + q.drop_last());
        assert((w + q).last() == q.last());
        assert forall|i: int| 0 <= i < q.drop_last().len() implies is_token_edge(#[trigger] q.drop_last()[i]) by {
            assert(q.drop_last()[i] == q[i]);
        }
        lemma_trim_end_edges(w, q.drop_last());
    }
}

/// An allergen code in any letter case, surrounded by any punctuation that
/// token edges may carry, reads as that code.
proof fn lemma_code_with_edges(p: Seq<char>, v: Seq<char>, q: Seq<char>)
    requires
        forall|i: int| 0 <= i < p.len() ==> is_token_edge(#[trigger] p[i]),
        forall|i: int| 0 <= i < q.len() ==> is_token_edge(#[trigger] q[i]),
        v.len() > 0,
        forall|i: int| 0 <= i < v.len() ==> ('A' <= #[trigger] ascii_upper(v[i]) <= 'Z') || v[i] == '*',
    ensures
        strip_token_edges(normalized(p + v + q)) == v,
{
    let x = p + v + q;
    assert forall|i: int| 0 <= i < x.len() implies crate::normalize::ws_is_space(#[trigger] x[i]) && x[i] != ' ' by {
        if i < p.len() {
            assert(x[i] == p[i]);
        } else if i < p.len() + v.len() {
            assert(x[i] == v[i - p.len()]);
            assert(('A' <= ascii_upper(v[i - p.len()]) <= 'Z') || v[i - p.len()] == '*');
        } else {
            assert(x[i] == q[i - p.len() - v.len()]);
        }
    }
    lemma_normal_fixed(x);
    assert(('A' <= ascii_upper(v[0]) <= 'Z') || v[0] == '*');
    assert(('A' <= ascii_upper(v[v.len() - 1]) <= 'Z') || v[v.len() - 1] == '*');
    assert(x == p + (v + q));
    lemma_trim_start_edges(p, v + q);
    lemma_trim_end_edges(v, q);
}

/// The allergen-token reader accepts exactly the documented codes whatever
/// their letter case and surrounding punctuation: `*`, any single Latin
/// letter (upper-cased), `ILM`, `VS`, `VL` and `VEG` (read as `Veg`).
pub proof fn law_allergen_codes_are_read(p: Seq<char>, v: Seq<char>, q: Seq<char>)
    requires
        forall|i: int| 0 <= i < p.len() ==> is_token_edge(#[trigger] p[i]),
        forall|i: int| 0 <= i < q.len() ==> is_token_edge(#[trigger] q[i]),
    ensures
        v == seq!['*'] ==> allergen_token(p + v + q) == Some(seq!['*']),
        v.len() == 1 && 'A' <= ascii_upper(v[0]) <= 'Z' ==> allergen_token(p + v + q) == Some(seq![ascii_upper(v[0])]),
        seq_ascii_upper(v) == seq!['I', 'L', 'M'] ==> allergen_token(p + v + q) == Some(seq!['I', 'L', 'M']),
        seq_ascii_upper(v) == seq!['V', 'S'] ==> allergen_token(p + v + q) == Some(seq!['V', 'S']),
        seq_ascii_upper(v) == seq!['V', 'L'] ==> allergen_token(p + v + q) == Some(seq!['V', 'L']),
        seq_ascii_upper(v) == seq!['V', 'E', 'G'] ==> allergen_token(p + v + q) == Some(seq!['V', 'e', 'g']),
{
    let up = seq_ascii_upper(v);
    if v == seq!['*'] {
        lemma_code_with_edges(p, v, q);
        assert(seq_ascii_upper(v) =~= seq!['*']);
    } else if v.len() == 1 && 'A' <= ascii_upper(v[0]) <= 'Z' {
        lemma_code_with_edges(p, v, q);
        assert(seq_ascii_upper(v) =~= seq![ascii_upper(v[0])]);
    } else if up == seq!['I', 'L', 'M'] || up == seq!['V', 'S'] || up == seq!['V', 'L'] || up == seq!['V', 'E', 'G'] {
        assert(up.len() == v.len());
        assert forall|i: int| 0 <= i < v.len() implies ('A' <= #[trigger] ascii_upper(v[i]) <= 'Z') || v[i] == '*' by {
            assert(up[i] == ascii_upper(v[i]));
            if up == seq!['I', 'L', 'M'] {
                assert(up[0] == 'I' && up[1] == 'L' && up[2] == 'M');
            } else if up == seq!['V', 'S'] {
                assert(up[0] == 'V' && up[1] == 'S');
            } else if up == seq!['V', 'L'] {
                assert(up[0] == 'V' && up[1] == 'L');
            } else {
                assert(up[0] == 'V' && up[1] == 'E' && up[2] == 'G');
            }
        }
        lemma_code_with_edges(p, v, q);
        assert(v != seq!['*']);
    }
}

/// Whether a piece of an allergen group is blank or reads as an allergen code.
pub open spec fn piece_is_read(piece: Seq<char>) -> bool {
    normalized(piece).len() == 0 || allergen_token(normalized(piece)) is Some
}

/// A parenthesized allergen list is read whole exactly when each of its
/// pieces is blank or an allergen code; one piece that is not spoils it.
pub proof fn law_group_read_iff_every_piece(parts: Seq<Seq<char>>)
    ensures
        group_tokens(parts) is Some <==> forall|i: int| 0 <= i < parts.len() ==> piece_is_read(#[trigger] parts[i]),
    decreases parts.len(),
{
    if parts.len() > 0 {
        let init = parts.drop_last();
        law_group_read_iff_every_piece(init);
        if group_tokens(parts) is Some {
            assert forall|i: int| 0 <= i < parts.len() implies piece_is_read(#[trigger] parts[i]) by {
                if i < parts.len() - 1 {
                    assert(parts[i] == init[i]);
                }
            }
        } else {
            if forall|i: int| 0 <= i < parts.len() ==> piece_is_read(#[trigger] parts[i]) {
                assert forall|i: int| 0 <= i < init.len() implies piece_is_read(#[trigger] init[i]) by {
                    assert(init[i] == parts[i]);
                }
                assert(piece_is_read(parts[parts.len() - 1]));
            }
        }
    }
}

// ---------------------------------------------------------------- price groups

/// A price segment that begins with a student label, in any letter case and
/// followed by anything but a letter (`Student 3,10 €`, `OPISKELIJA 2,95 €`),
/// names the student audience: the labels are compared on the lower-cased
/// segment, which is what `classify_compass_price_group` gives for every
/// ASCII segment.
pub proof fn law_student_label_in_any_case(seg: Seq<char>, k: int)
    requires
        0 <= k < student_labels().len(),
        seg.len() >= student_labels()[k].len(),
        seq_ascii_lower(seg.take(student_labels()[k].len() as int)) == student_labels()[k],
        seg.len() == student_labels()[k].len() || !unicode_alphabetic(ascii_lower(seg[student_labels()[k].len() as int])),
    ensures
        classify_lower(seq_ascii_lower(seg)) == PriceGroup::Student,
{
    let label = student_labels()[k];
    let n = label.len() as int;
    let lower = seq_ascii_lower(seg);
    assert(lower.subrange(0, n) =~= seq_ascii_lower(seg.take(n)));
    if seg.len() > n {
        assert(lower[n] == ascii_lower(seg[n]));
    }
    assert(word_at(lower, student_labels()[k], 0));
}

/// Letter case does not change the audience of an ASCII price segment: two
/// segments that differ only in case are classified alike, and a segment is
/// classified as its own lower-cased form is.
pub proof fn law_price_group_ignores_case(s: Seq<char>, t: Seq<char>)
    requires
        seq_ascii_lower(s) == seq_ascii_lower(t),
    ensures
        classify_lower(seq_ascii_lower(s)) == classify_lower(seq_ascii_lower(t)),
        classify_lower(seq_ascii_lower(s)) == classify_lower(seq_ascii_lower(seq_ascii_lower(s))),
{
    assert(seq_ascii_lower(seq_ascii_lower(s)) =~= seq_ascii_lower(s)) by {
        assert forall|i: int| 0 <= i < s.len() implies ascii_lower(ascii_lower(#[trigger] s[i])) == ascii_lower(s[i]) by {
            let c = s[i];
            if 'A' <= c && c <= 'Z' {
                assert(((c as u32) + 32) as char >= 'a');
            }
        }
    }
}

// ---------------------------------------------------------------- month names

/// The first three letters of each Finnish month name.
spec fn fi_head(m: u32) -> (char, char, char) {
    if m == 1 { ('t', 'a', 'm') } else if m == 2 { ('h', 'e', 'l') } else if m == 3 { ('m', 'a', 'a') } else if m == 4 { ('h', 'u', 'h') } else if m == 5 { ('t', 'o', 'u') } else if m == 6 { ('k', 'e', 's') } else if m == 7 { ('h', 'e', 'i') } else if m == 8 { ('e', 'l', 'o') } else if m == 9 { ('s', 'y', 'y') } else if m == 10 { ('l', 'o', 'k') } else if m == 11 { ('m', 'a', 'r') } else { ('j', 'o', 'u') }
}

/// The first three letters of each English month name.
spec fn en_head(m: u32) -> (char, char, char) {
    if m == 1 { ('J', 'a', 'n') } else if m == 2 { ('F', 'e', 'b') } else if m == 3 { ('M', 'a', 'r') } else if m == 4 { ('A', 'p', 'r') } else if m == 5 { ('M', 'a', 'y') } else if m == 6 { ('J', 'u', 'n') } else if m == 7 { ('J', 'u', 'l') } else if m == 8 { ('A', 'u', 'g') } else if m == 9 { ('S', 'e', 'p') } else if m == 10 { ('O', 'c', 't') } else if m == 11 { ('N', 'o', 'v') } else { ('D', 'e', 'c') }
}

proof fn lemma_month_heads(m: u32)
    requires
        1 <= m <= 12,
    ensures
        fi_month(m).len() >= 3,
        en_month(m).len() >= 3,
        (fi_month(m)[0], fi_month(m)[1], fi_month(m)[2]) == fi_head(m),
        (en_month(m)[0], en_month(m)[1], en_month(m)[2]) == en_head(m),
{
    if m == 1 {
        reveal_strlit("tammikuuta");
        assert("tammikuuta"@ =~= seq!['t', 'a', 'm', 'm', 'i', 'k', 'u', 'u', 't', 'a']);
        reveal_strlit("January");
        assert("January"@ =~= seq!['J', 'a', 'n', 'u', 'a', 'r', 'y']);
    } else if m == 2 {
        reveal_strlit("helmikuuta");
        assert("helmikuuta"@ =~= seq!['h', 'e', 'l', 'm', 'i', 'k', 'u', 'u', 't', 'a']);
        reveal_strlit("February");
        assert("February"@ =~= seq!['F', 'e', 'b', 'r', 'u', 'a', 'r', 'y']);
    } else if m == 3 {
        reveal_strlit("maaliskuuta");
        assert("maaliskuuta"@ =~= seq!['m', 'a', 'a', 'l', 'i', 's', 'k', 'u', 'u', 't', 'a']);
        reveal_strlit("March");
        assert("March"@ =~= seq!['M', 'a', 'r', 'c', 'h']);
    } else if m == 4 {
        reveal_strlit("huhtikuuta");
        assert("huhtikuuta"@ =~= seq!['h', 'u', 'h', 't', 'i', 'k', 'u', 'u', 't', 'a']);
        reveal_strlit("April");
        assert("April"@ =~= seq!['A', 'p', 'r', 'i', 'l']);
    } else if m == 5 {
        reveal_strlit("toukokuuta");
        assert("toukokuuta"@ =~= seq!['t', 'o', 'u', 'k', 'o', 'k', 'u', 'u', 't', 'a']);
        reveal_strlit("May");
        assert("May"@ =~= seq!['M', 'a', 'y']);
    } else if m == 6 {
        reveal_strlit("kesäkuuta");
        assert("kesäkuuta"@ =~= seq!['k', 'e', 's', 'ä', 'k', 'u', 'u', 't', 'a']);
        reveal_strlit("June");
        assert("June"@ =~= seq!['J', 'u', 'n', 'e']);
    } else if m == 7 {
        reveal_strlit("heinäkuuta");
        assert("heinäkuuta"@ =~= seq!['h', 'e', 'i', 'n', 'ä', 'k', 'u', 'u', 't', 'a']);
        reveal_strlit("July");
        assert("July"@ =~= seq!['J', 'u', 'l', 'y']);
    } else if m == 8 {
        reveal_strlit("elokuuta");
        assert("elokuuta"@ =~= seq!['e', 'l', 'o', 'k', 'u', 'u', 't', 'a']);
        reveal_strlit("August");
        assert("August"@ =~= seq!['A', 'u', 'g', 'u', 's', 't']);
    } else if m == 9 {
        reveal_strlit("syyskuuta");
        assert("syyskuuta"@ =~= seq!['s', 'y', 'y', 's', 'k', 'u', 'u', 't', 'a']);
        reveal_strlit("September");
        assert("September"@ =~= seq!['S', 'e', 'p', 't', 'e', 'm', 'b', 'e', 'r']);
    } else if m == 10 {
        reveal_strlit("lokakuuta");
        assert("lokakuuta"@ =~= seq!['l', 'o', 'k', 'a', 'k', 'u', 'u', 't', 'a']);
        reveal_strlit("October");
        assert("October"@ =~= seq!['O', 'c', 't', 'o', 'b', 'e', 'r']);
    } else if m == 11 {
        reveal_strlit("marraskuuta");
        assert("marraskuuta"@ =~= seq!['m', 'a', 'r', 'r', 'a', 's', 'k', 'u', 'u', 't', 'a']);
        reveal_strlit("November");
        assert("November"@ =~= seq!['N', 'o', 'v', 'e', 'm', 'b', 'e', 'r']);
    } else {
        reveal_strlit("joulukuuta");
        assert("joulukuuta"@ =~= seq!['j', 'o', 'u', 'l', 'u', 'k', 'u', 'u', 't', 'a']);
        reveal_strlit("December");
        assert("December"@ =~= seq!['D', 'e', 'c', 'e', 'm', 'b', 'e', 'r']);
    }
}

/// Different months have different names, in Finnish and in English, and
/// the last month reads `joulukuuta` / `December`.
pub proof fn law_month_names_distinct(m: u32, n: u32)
    requires
        1 <= m < n <= 12,
    ensures
        fi_month(m) != fi_month(n),
        en_month(m) != en_month(n),
        fi_month(12) == seq!['j', 'o', 'u', 'l', 'u', 'k', 'u', 'u', 't', 'a'],
        en_month(12) == seq!['D', 'e', 'c', 'e', 'm', 'b', 'e', 'r'],
{
    lemma_month_heads(m);
    lemma_month_heads(n);
    reveal_strlit("joulukuuta");
    reveal_strlit("December");
    assert("joulukuuta"@ =~= seq!['j', 'o', 'u', 'l', 'u', 'k', 'u', 'u', 't', 'a']);
    assert("December"@ =~= seq!['D', 'e', 'c', 'e', 'm', 'b', 'e', 'r']);
}

// ---------------------------------------------------------------- allergen highlights

/// An allergen suffix highlights exactly the alphabetic runs that read `G`,
/// `VEG` or `L` in upper case, each under its own switch (gluten-free, veg,
/// lactose-free); any other run, and any run of non-letters, stays plain.
pub proof fn law_suffix_highlights(run: Seq<char>, gluten_free: bool, veg: bool, lactose_free: bool)
    ensures
        run.len() == 0 || !unicode_alphabetic(run[0]) ==> !highlighted(run, gluten_free, veg, lactose_free),
        run.len() > 0 && unicode_alphabetic(run[0]) && unicode_uppercase(run) == seq!['G']
            ==> highlighted(run, gluten_free, veg, lactose_free) == gluten_free,
        run.len() > 0 && unicode_alphabetic(run[0]) && unicode_uppercase(run) == seq!['V', 'E', 'G']
            ==> highlighted(run, gluten_free, veg, lactose_free) == veg,
        run.len() > 0 && unicode_alphabetic(run[0]) && unicode_uppercase(run) == seq!['L']
            ==> highlighted(run, gluten_free, veg, lactose_free) == lactose_free,
        unicode_uppercase(run) != seq!['G'] && unicode_uppercase(run) != seq!['V', 'E', 'G']
            && unicode_uppercase(run) != seq!['L'] ==> !highlighted(run, gluten_free, veg, lactose_free),
{
    reveal_strlit("G");
    reveal_strlit("VEG");
    reveal_strlit("L");
    assert("G"@ =~= seq!['G']);
    assert("VEG"@ =~= seq!['V', 'E', 'G']);
    assert("L"@ =~= seq!['L']);
    assert(seq!['G'][0] != seq!['L'][0]);
    assert(seq!['G'].len() != seq!['V', 'E', 'G'].len());
}

// ---------------------------------------------------------------- general offers

/// A general offer's description becomes its group's one line: blank
/// descriptions give no line, any other gives exactly one line, in normal
/// shape, that keeps every non-whitespace character of the description in
/// order.
pub proof fn law_offer_description_is_shown(o: ApiOffer, language: Seq<char>)
    ensures
        offer_view(o, language).components.len() <= 1,
        offer_view(o, language).components.len() == 0 <==> non_whitespace(o.description@).len() == 0,
        offer_view(o, language).components.len() == 1 ==> {
            let line = offer_view(o, language).components[0];
            &&& line.len() > 0
            &&& is_normal(line)
            &&& non_space(line) == non_whitespace(o.description@)
        },
{
    let d = normalized(o.description@);
    lemma_normalized_keeps_words(o.description@);
    lemma_normalized_is_normal(o.description@);
    if d.len() > 0 {
        assert(d.last() != ' ');
        assert(non_space(d) == non_space(d.drop_last()).push(d.last()));
    } else {
        assert(non_space(d) =~= Seq::<char>::empty());
    }
}

} // verus!
