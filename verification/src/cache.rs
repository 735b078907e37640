//! Cache file naming and payload cleanup for lunch API responses.

use vstd::prelude::*;
use crate::restaurant::{provider_key, provider_key_spec, Provider};
use crate::seqs::extend_chars;
use crate::text::{chars_to_string, str_chars};

verus! {

/// Characters kept as they are in a cache file name segment.
pub open spec fn key_char_kept(c: char) -> bool {
    ('a' <= c && c <= 'z') || ('A' <= c && c <= 'Z') || ('0' <= c && c <= '9') || c == '.' || c == '_' || c == '-'
}

/// A segment with every character that is not kept replaced by `_`.
pub open spec fn sanitized(s: Seq<char>) -> Seq<char> {
    s.map_values(|c: char| if key_char_kept(c) { c } else { '_' })
}

/// Replaces every character that is not ASCII alphanumeric, `.`, `_` or `-` by `_`.
pub fn sanitize_key_segment(value: &str) -> (r: String)
    ensures
        r@ == sanitized(value@),
{
    let chars = str_chars(value);
    let mut out: Vec<char> = Vec::new();
    let mut i: usize = 0;
    while i < chars.len()
        invariant
            i <= chars.len(),
            out@ == sanitized(chars@.subrange(0, i as int)),
        decreases chars.len() - i,
    {
        let ch = chars[i];
        let kept = ('a' <= ch && ch <= 'z') || ('A' <= ch && ch <= 'Z') || ('0' <= ch && ch <= '9') || ch == '.' || ch == '_' || ch == '-';
        out.push(if kept { ch } else { '_' });
        i += 1;
        assert(out@ =~= sanitized(chars@.subrange(0, i as int)));
    }
    assert(chars@.subrange(0, chars.len() as int) =~= chars@);
    chars_to_string(&out)
}

/// The cache file name of a provider, restaurant and language.
pub open spec fn cache_file_name(provider: Provider, code: Seq<char>, language: Seq<char>) -> Seq<char> {
    sanitized(provider_key_spec(provider)) + "__"@ + sanitized(code) + "__"@ + sanitized(language) + ".json"@
}

/// The file name older versions used for the same cache entry.
pub open spec fn legacy_cache_file_name(provider: Provider, code: Seq<char>, language: Seq<char>) -> Seq<char> {
    provider_key_spec(provider) + "|"@ + code + "|"@ + language + ".json"@
}

/// Returns the cache file name for a provider, restaurant, and language combination.
pub fn cache_filename(provider: Provider, code: &str, language: &str) -> (r: String)
    ensures
        r@ == cache_file_name(provider, code@, language@),
{
    let mut out = str_chars(sanitize_key_segment(provider_key(provider)).as_str());
    extend_chars(&mut out, &str_chars("__"));
    extend_chars(&mut out, &str_chars(sanitize_key_segment(code).as_str()));
    extend_chars(&mut out, &str_chars("__"));
    extend_chars(&mut out, &str_chars(sanitize_key_segment(language).as_str()));
    extend_chars(&mut out, &str_chars(".json"));
    chars_to_string(&out)
}

/// Returns the cache file name older versions used.
pub fn legacy_cache_filename(provider: Provider, code: &str, language: &str) -> (r: String)
    ensures
        r@ == legacy_cache_file_name(provider, code@, language@),
{
    let mut out = str_chars(provider_key(provider));
    extend_chars(&mut out, &str_chars("|"));
    extend_chars(&mut out, &str_chars(code));
    extend_chars(&mut out, &str_chars("|"));
    extend_chars(&mut out, &str_chars(language));
    extend_chars(&mut out, &str_chars(".json"));
    chars_to_string(&out)
}

/// A cached payload without a leading UTF-8 byte-order mark.
pub open spec fn without_bom(data: Seq<char>) -> Seq<char> {
    if data.len() > 0 && data[0] == '\u{feff}' { data.drop_first() } else { data }
}

/// Removes a leading byte-order mark from cached JSON.
pub fn strip_json_bom(data: String) -> (r: String)
    ensures
        r@ == without_bom(data@),
{
    let chars = str_chars(data.as_str());
    if chars.len() > 0 && chars[0] == '\u{feff}' {
        let rest = crate::seqs::slice_chars(&chars, 1, chars.len());
        assert(rest@ =~= data@.drop_first());
        chars_to_string(&rest)
    } else {
        data
    }
}

}
