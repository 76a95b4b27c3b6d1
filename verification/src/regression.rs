//! Per-page records of the text-extraction regression comparison: one
//! JSON line per page (non-white-space character count and a hash of the
//! text), and a summary line.
use crate::text::{decimal, is_whitespace, is_ws, push_char, push_decimal, push_quoted, quoted};
use std::hash::BuildHasher;
use vstd::prelude::*;
use vstd::string::StringExecFns;

verus! {

broadcast use vstd::string::group_string_axioms;

/// `s` as a JSON string literal: between double quotes, escaped as JSON
/// requires.
pub fn json_str(s: &str) -> (r: String)
    ensures
        r@ == quoted(s@),
{
    let mut out = String::new();
    push_quoted(&mut out, s);
    assert(out@ =~= quoted(s@));
    out
}

/// The number of characters of `s` that are not white space.
pub open spec fn non_ws_count(s: Seq<char>) -> nat
    decreases s.len(),
{
    if s.len() == 0 {
        0
    } else {
        non_ws_count(s.drop_last()) + if is_ws(s.last()) {
            0nat
        } else {
            1nat
        }
    }
}

/// Counts the characters of `s` that are not white space.
pub fn count_non_whitespace(s: &str) -> (r: usize)
    requires
        s@.len() <= usize::MAX,
    ensures
        r == non_ws_count(s@),
{
    let mut n: usize = 0;
    for c in it: s.chars()
        invariant
            it.seq() == s@,
            s@.len() <= usize::MAX,
            n == non_ws_count(s@.take(it.index() as int)),
            n <= it.index(),
    {
        assert(s@.take(it.index() + 1).drop_last() == s@.take(it.index() as int));
        if !is_whitespace(c) {
            n = n + 1;
        }
    }
    assert(s@.take(s@.len() as int) == s@);
    n
}

/// What `std`'s default hasher (`DefaultHasher::new()`, SipHash with
/// fixed keys) gives for a string.
pub uninterp spec fn default_str_hash(s: Seq<char>) -> u64;

/// Hashes `s` with `std`'s default hasher (`BuildHasher::hash_one` on the
/// default builder of `DefaultHasher`). Claims only that the hash is a
/// function of the string.
#[verifier::external_body]
fn text_hash(s: &str) -> (r: u64)
    ensures
        r == default_str_hash(s@),
{
    std::hash::BuildHasherDefault::<std::collections::hash_map::DefaultHasher>::default().hash_one(
        s,
    )
}

/// The statistics of one page's text.
pub struct PageStats {
    /// Characters that are not white space.
    pub nonws: usize,
    /// Hash of the text.
    pub hash: u64,
}

/// Computes the statistics of one page's text.
pub fn page_stats(text: &str) -> (r: PageStats)
    requires
        text@.len() <= usize::MAX,
    ensures
        r.nonws == non_ws_count(text@),
        r.hash == default_str_hash(text@),
{
    PageStats { nonws: count_non_whitespace(text), hash: text_hash(text) }
}

/// The record line of an extracted page.
pub open spec fn page_line_spec(path: Seq<char>, page: nat, nonws: nat, hash: nat, ms: nat) -> Seq<
    char,
> {
    "{\"type\":\"page\",\"path\":"@ + quoted(path) + ",\"page\":"@
        + decimal(page) + ",\"nonws\":"@ + decimal(nonws) + ",\"hash\":"@ + decimal(hash)
        + ",\"ms\":"@ + decimal(ms) + "}"@
}

/// The JSON record of an extracted page.
pub fn page_line(path: &str, page: u64, nonws: u64, hash: u64, ms: u64) -> (r: String)
    ensures
        r@ == page_line_spec(path@, page as nat, nonws as nat, hash as nat, ms as nat),
{
    let mut out = "{\"type\":\"page\",\"path\":".to_owned();
    let p = json_str(path);
    out.append(p.as_str());
    out.append(",\"page\":");
    push_decimal(&mut out, page);
    out.append(",\"nonws\":");
    push_decimal(&mut out, nonws);
    out.append(",\"hash\":");
    push_decimal(&mut out, hash);
    out.append(",\"ms\":");
    push_decimal(&mut out, ms);
    out.append("}");
    out
}

/// The record line of a page whose extraction failed.
pub open spec fn page_error_line_spec(path: Seq<char>, page: nat, msg: Seq<char>) -> Seq<char> {
    "{\"type\":\"page_err\",\"path\":"@ + quoted(path)
        + ",\"page\":"@ + decimal(page) + ",\"msg\":"@ + quoted(msg)
        + "}"@
}

/// The JSON record of a page whose extraction failed.
pub fn page_error_line(path: &str, page: u64, msg: &str) -> (r: String)
    ensures
        r@ == page_error_line_spec(path@, page as nat, msg@),
{
    let mut out = "{\"type\":\"page_err\",\"path\":".to_owned();
    let p = json_str(path);
    out.append(p.as_str());
    out.append(",\"page\":");
    push_decimal(&mut out, page);
    out.append(",\"msg\":");
    let m = json_str(msg);
    out.append(m.as_str());
    out.append("}");
    out
}

/// The record line of a document that could not be processed at `stage`.
pub open spec fn error_line_spec(path: Seq<char>, stage: Seq<char>, msg: Seq<char>) -> Seq<char> {
    "{\"type\":\"error\",\"path\":"@ + quoted(path)
        + ",\"stage\":\""@ + stage + "\",\"msg\":"@ + quoted(msg)
        + "}"@
}

/// The JSON record of a document that could not be processed at `stage`
/// (`open` or `page_count`).
pub fn error_line(path: &str, stage: &str, msg: &str) -> (r: String)
    ensures
        r@ == error_line_spec(path@, stage@, msg@),
{
    let mut out = "{\"type\":\"error\",\"path\":".to_owned();
    let p = json_str(path);
    out.append(p.as_str());
    out.append(",\"stage\":\"");
    out.append(stage);
    out.append("\",\"msg\":");
    let m = json_str(msg);
    out.append(m.as_str());
    out.append("}");
    out
}

/// The summary line of a document.
pub open spec fn summary_line_spec(
    path: Seq<char>,
    pages: nat,
    total_nonws: nat,
    errors: nat,
    total_ms: nat,
) -> Seq<char> {
    "{\"type\":\"summary\",\"path\":"@ + quoted(path)
        + ",\"pages\":"@ + decimal(pages) + ",\"total_nonws\":"@ + decimal(total_nonws)
        + ",\"errors\":"@ + decimal(errors) + ",\"total_ms\":"@ + decimal(total_ms) + "}"@
}

/// The JSON summary record of a document.
pub fn summary_line(path: &str, pages: u64, total_nonws: u64, errors: u64, total_ms: u64) -> (r:
    String)
    ensures
        r@ == summary_line_spec(
            path@,
            pages as nat,
            total_nonws as nat,
            errors as nat,
            total_ms as nat,
        ),
{
    let mut out = "{\"type\":\"summary\",\"path\":".to_owned();
    let p = json_str(path);
    out.append(p.as_str());
    out.append(",\"pages\":");
    push_decimal(&mut out, pages);
    out.append(",\"total_nonws\":");
    push_decimal(&mut out, total_nonws);
    out.append(",\"errors\":");
    push_decimal(&mut out, errors);
    out.append(",\"total_ms\":");
    push_decimal(&mut out, total_ms);
    out.append("}");
    out
}

} // verus!
