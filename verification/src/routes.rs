//! Request-path decisions: how a blog URL's slug maps to a page, a raw
//! source, a Markdown variant, a redirect, or nothing.

use vstd::prelude::*;

use crate::state::{AppState, PageRecord};
use crate::text::{
    chars_ends_with, chars_from, chars_of, chars_range, ends_with, find_char, index_of_char,
    opt_str, str_eq, trim_spec,
};
use crate::trusted::string_from_chars;

verus! {

/// The suffix a pretty URL may carry any number of times.
pub open spec fn suffix_html() -> Seq<char> {
    seq!['.', 'h', 't', 'm', 'l']
}

/// The suffix that asks for a page's raw source.
pub open spec fn suffix_typ() -> Seq<char> {
    seq!['.', 't', 'y', 'p']
}

/// The suffix that asks for a page's Markdown variant.
pub open spec fn suffix_md() -> Seq<char> {
    seq!['.', 'm', 'd']
}

/// The slug with every trailing `.html` removed.
pub open spec fn strip_html(s: Seq<char>) -> Seq<char>
    decreases s.len(),
{
    if ends_with(s, suffix_html()) {
        strip_html(s.subrange(0, s.len() - 5))
    } else {
        s
    }
}

/// Where a blog request goes.
pub enum BlogRoute {
    /// No page can answer this slug.
    NotFound,
    /// A pretty URL for a browser: redirect to the extension-free location.
    Redirect(String),
    /// Serve the page's raw source document.
    RawTyp(String),
    /// Serve the page's Markdown variant.
    Markdown(String),
    /// Serve the prerendered page under this slug.
    Page(String),
}

/// The route a slug takes: `.html` suffixes are stripped — to nothing means
/// not found, for a browser means a redirect; a `.typ` suffix, or any
/// extension-free slug fetched from the command line, asks for the raw
/// source; a `.md` suffix asks for Markdown; anything else is a page
/// lookup.
pub open spec fn route_matches(r: BlogRoute, slug: Seq<char>, is_curl: bool) -> bool {
    let clean = strip_html(slug);
    let stripped = clean != slug;
    if stripped && clean.len() == 0 {
        r is NotFound
    } else if stripped && !is_curl {
        r matches BlogRoute::Redirect(loc) && loc@ == "/blog/"@ + clean
    } else if ends_with(clean, suffix_typ()) {
        r matches BlogRoute::RawTyp(s) && s@ == clean.subrange(0, clean.len() - 4)
    } else if is_curl && find_char(slug, '.', 0) is None {
        r matches BlogRoute::RawTyp(s) && s@ == clean
    } else if ends_with(clean, suffix_md()) {
        r matches BlogRoute::Markdown(s) && s@ == clean.subrange(0, clean.len() - 3)
    } else {
        r matches BlogRoute::Page(s) && s@ == clean
    }
}

/// Decides how to answer a blog request for this slug.
pub fn classify_blog_request(slug: &str, is_curl: bool) -> (r: BlogRoute)
    ensures
        route_matches(r, slug@, is_curl),
{
    let sv = chars_of(slug);
    let mut clean = chars_from(&sv, 0);
    proof {
        assert(clean@ =~= sv@);
    }
    let mut stripped: bool = false;
    let suffix_len = ".html".unicode_len();
    loop
        invariant
            suffix_len == ".html"@.len(),
            strip_html(clean@) == strip_html(sv@),
            stripped == (clean@ != sv@),
            clean@.len() <= sv@.len(),
        ensures
            !ends_with(clean@, suffix_html()),
            strip_html(clean@) == strip_html(sv@),
            stripped == (clean@ != sv@),
        decreases clean@.len(),
    {
        proof {
            reveal_strlit(".html");
            assert(".html"@ =~= suffix_html());
        }
        if !chars_ends_with(&clean, ".html") {
            break ;
        }
        let keep = clean.len() - suffix_len;
        let next = chars_range(&clean, 0, keep);
        proof {
            assert(next@ == clean@.subrange(0, clean@.len() - 5));
        }
        clean = next;
        stripped = true;
    }
    proof {
        assert(strip_html(clean@) == clean@);
        assert(clean@ == strip_html(sv@));
    }
    if stripped && clean.len() == 0 {
        return BlogRoute::NotFound;
    }
    if stripped && !is_curl {
        let mut loc = chars_of("/blog/");
        let mut tail = chars_from(&clean, 0);
        proof {
            assert(tail@ =~= clean@);
        }
        loc.append(&mut tail);
        return BlogRoute::Redirect(string_from_chars(&loc));
    }
    proof {
        reveal_strlit(".typ");
        assert(".typ"@ =~= suffix_typ());
    }
    if chars_ends_with(&clean, ".typ") {
        let keep = clean.len() - ".typ".unicode_len();
        return BlogRoute::RawTyp(string_from_chars(&chars_range(&clean, 0, keep)));
    }
    if is_curl && index_of_char(&sv, '.', 0).is_none() {
        return BlogRoute::RawTyp(string_from_chars(&clean));
    }
    proof {
        reveal_strlit(".md");
        assert(".md"@ =~= suffix_md());
    }
    if chars_ends_with(&clean, ".md") {
        let keep = clean.len() - ".md".unicode_len();
        return BlogRoute::Markdown(string_from_chars(&chars_range(&clean, 0, keep)));
    }
    BlogRoute::Page(string_from_chars(&clean))
}

/// A slug may reach the raw-source and Markdown stores only when it names
/// no path segment and no draft: no slash, no leading underscore.
pub open spec fn slug_guarded(s: Seq<char>) -> bool {
    find_char(s, '/', 0) is None && !(s.len() > 0 && s[0] == '_')
}

/// Whether a slug may reach the raw-source and Markdown stores.
pub fn slug_guard(slug: &str) -> (r: bool)
    ensures
        r == slug_guarded(slug@),
{
    let sv = chars_of(slug);
    let no_slash = index_of_char(&sv, '/', 0).is_none();
    let no_draft = sv.len() == 0 || sv[0] != '_';
    no_slash && no_draft
}

/// The raw source served for a slug: only for guarded slugs whose page
/// carries one.
pub open spec fn raw_source_of(s: AppState, slug: Seq<char>) -> Option<Seq<char>> {
    if !slug_guarded(slug) {
        None
    } else {
        match crate::state::page_index(s.pages@, slug, 0) {
            Some(j) => opt_str(s.pages@[j].raw_source),
            None => None,
        }
    }
}

/// Looks up the raw source document served for a slug.
pub fn lookup_raw_source<'a>(state: &'a AppState, slug: &str) -> (r: Option<&'a String>)
    ensures
        match r {
            Some(v) => raw_source_of(*state, slug@) == Some(v@),
            None => raw_source_of(*state, slug@) is None,
        },
{
    if !slug_guard(slug) {
        return None;
    }
    match state.find_page(slug) {
        Some(rec) => rec.raw_source.as_ref(),
        None => None,
    }
}

/// The Markdown variant served for a slug: only for guarded slugs whose
/// page carries one.
pub open spec fn markdown_of(s: AppState, slug: Seq<char>) -> Option<Seq<char>> {
    if !slug_guarded(slug) {
        None
    } else {
        match crate::state::page_index(s.pages@, slug, 0) {
            Some(j) => opt_str(s.pages@[j].markdown),
            None => None,
        }
    }
}

/// Looks up the Markdown variant served for a slug.
pub fn lookup_markdown<'a>(state: &'a AppState, slug: &str) -> (r: Option<&'a String>)
    ensures
        match r {
            Some(v) => markdown_of(*state, slug@) == Some(v@),
            None => markdown_of(*state, slug@) is None,
        },
{
    if !slug_guard(slug) {
        return None;
    }
    match state.find_page(slug) {
        Some(rec) => rec.markdown.as_ref(),
        None => None,
    }
}

/// What stands before the first comma; the whole sequence without one.
pub open spec fn first_segment(s: Seq<char>) -> Seq<char> {
    match find_char(s, ',', 0) {
        Some(j) => s.subrange(0, j),
        None => s,
    }
}

/// The client address to log and display: nothing unless a trusted proxy
/// stands in front; then the dedicated client-address header, or the first
/// hop of the forwarding chain, trimmed and non-empty.
pub open spec fn client_ip_spec(
    trust_proxy: bool,
    cf: Option<Seq<char>>,
    xff: Option<Seq<char>>,
) -> Option<Seq<char>> {
    if !trust_proxy {
        None
    } else if cf matches Some(c) && trim_spec(c).len() > 0 {
        Some(trim_spec(cf->0))
    } else {
        match xff {
            Some(x) => if trim_spec(first_segment(x)).len() > 0 {
                Some(trim_spec(first_segment(x)))
            } else {
                None
            },
            None => None,
        }
    }
}

/// Chooses the client address from the proxy headers, when a trusted proxy
/// stands in front.
pub fn client_ip_choice(trust_proxy: bool, cf: Option<&str>, xff: Option<&str>) -> (r: Option<
    String,
>)
    ensures
        ({
            let cfv = match cf {
                Some(c) => Some(c@),
                None => None,
            };
            let xffv = match xff {
                Some(x) => Some(x@),
                None => None,
            };
            opt_str(r) == client_ip_spec(trust_proxy, cfv, xffv)
        }),
{
    if !trust_proxy {
        return None;
    }
    if let Some(c) = cf {
        let t = crate::text::trim_chars(&chars_of(c));
        if t.len() > 0 {
            return Some(string_from_chars(&t));
        }
    }
    if let Some(x) = xff {
        let xv = chars_of(x);
        let first = match index_of_char(&xv, ',', 0) {
            Some(j) => chars_range(&xv, 0, j),
            None => xv,
        };
        let t = crate::text::trim_chars(&first);
        if t.len() > 0 {
            return Some(string_from_chars(&t));
        }
    }
    None
}

/// Whether a user-agent string names the command-line fetcher, in any
/// casing.
pub fn ua_is_curl(ua: &str) -> (r: bool)
    ensures
        r == crate::search::contains_spec(crate::trusted::lower_of(ua@), "curl"@),
{
    let low = crate::trusted::lower_chars(&chars_of(ua));
    crate::search::contains_chars(&low, &chars_of("curl"))
}

/// Whether the process-level flag value switches Markdown delivery on.
pub fn markdown_enabled(flag: &str) -> (r: bool)
    ensures
        r == (flag@ == "true"@ || flag@ == "1"@ || flag@ == "yes"@ || flag@ == "on"@ || flag@
            == "TRUE"@ || flag@ == "True"@ || flag@ == "ON"@),
{
    str_eq(flag, "true") || str_eq(flag, "1") || str_eq(flag, "yes") || str_eq(flag, "on")
        || str_eq(flag, "TRUE") || str_eq(flag, "True") || str_eq(flag, "ON")
}

} // verus!
