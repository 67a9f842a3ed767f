//! Wrappers around outside functions that the library relies on.
//!
//! Each wrapper's contract is what the verified code knows of the call; the
//! bodies are not read by the verifier.

use vstd::prelude::*;

verus! {

/// The Unicode-lowercased form of a character sequence, as
/// `str::to_lowercase` computes it.  The result depends on the characters
/// alone.
pub uninterp spec fn lower_of(s: Seq<char>) -> Seq<char>;

/// Relies on `str::to_lowercase`: returns the lowercase equivalent of the
/// input, a pure function of its characters; an empty input stays empty.
#[verifier::external_body]
pub(crate) fn lower_chars(s: &Vec<char>) -> (r: Vec<char>)
    ensures
        r@ == lower_of(s@),
        s@.len() == 0 ==> r@.len() == 0,
{
    let owned: String = s.iter().collect();
    owned.to_lowercase().chars().collect()
}

/// Relies on `String::from_iter`: collects exactly the given characters
/// into a string.
#[verifier::external_body]
pub(crate) fn string_from_chars(v: &Vec<char>) -> (r: String)
    ensures
        r@ == v@,
{
    v.iter().collect()
}

/// The whitespace-minified form of an HTML document, as `minify_html::minify`
/// computes it with closing tags kept and embedded CSS and JavaScript left
/// alone.  The result depends on the input text alone.
pub uninterp spec fn minified_of(s: Seq<char>) -> Seq<char>;

/// Relies on `minify_html::minify`: minifies an HTML document, a pure
/// function of the input.  Output that is not valid UTF-8 falls back to the
/// input unchanged, so the composition is total.
#[verifier::external_body]
pub(crate) fn minify_html_text(html: String) -> (r: String)
    ensures
        r@ == minified_of(html@),
{
    let mut cfg = minify_html::Cfg::new();
    cfg.keep_closing_tags = true;
    let min = minify_html::minify(html.as_bytes(), &cfg);
    String::from_utf8(min).unwrap_or(html)
}

/// Relies on `rand::random_range`: draws a value from the given range using
/// the thread-local generator.  Nothing is promised of which value comes
/// back, only that it lies in the range.
#[verifier::external_body]
pub(crate) fn random_index(bound: usize) -> (r: usize)
    requires
        bound > 0,
    ensures
        r < bound,
{
    rand::random_range(0..bound)
}

} // verus!
