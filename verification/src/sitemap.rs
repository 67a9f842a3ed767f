//! Sitemap derivation: URL entries from the page manifest and their XML
//! rendering.

use vstd::prelude::*;

use crate::frontmatter::FrontMatter;
use crate::text::{chars_from, chars_of, opt_str, trim_chars, trim_spec};
use crate::trusted::string_from_chars;

verus! {

/// Lexicographic order on the characters from position `i` on: a prefix
/// comes first, otherwise the first differing scalar value decides.  On
/// UTF-8 text this order agrees with byte order.
pub open spec fn lex_le_from(a: Seq<char>, b: Seq<char>, i: int) -> bool
    decreases a.len() - i when 0 <= i
{
    if i >= a.len() {
        true
    } else if i >= b.len() {
        false
    } else if a[i] == b[i] {
        lex_le_from(a, b, i + 1)
    } else {
        (a[i] as u32) < (b[i] as u32)
    }
}

/// Lexicographic order on character sequences.
pub open spec fn str_le(a: Seq<char>, b: Seq<char>) -> bool {
    lex_le_from(a, b, 0)
}

/// Compares two character sequences lexicographically.
pub fn chars_le(a: &Vec<char>, b: &Vec<char>) -> (r: bool)
    ensures
        r == str_le(a@, b@),
{
    let al = a.len();
    let bl = b.len();
    let mut i: usize = 0;
    while i < al && i < bl
        invariant
            al == a@.len(),
            bl == b@.len(),
            i <= al,
            i <= bl,
            lex_le_from(a@, b@, 0) == lex_le_from(a@, b@, i as int),
        decreases al - i,
    {
        if a[i] != b[i] {
            return (a[i] as u32) < (b[i] as u32);
        }
        i = i + 1;
    }
    i >= al
}

/// The timestamp a page contributes to the sitemap: its update date, or
/// failing that its publication date, trimmed.
pub open spec fn lastmod_of(m: FrontMatter) -> Option<Seq<char>> {
    match m.updated_at {
        Some(u) => Some(trim_spec(u@)),
        None => match m.published_at {
            Some(p) => Some(trim_spec(p@)),
            None => None,
        },
    }
}

/// The later of an accumulated timestamp and a page's own, preferring the
/// page's on ties.
pub open spec fn later_of(acc: Option<Seq<char>>, c: Option<Seq<char>>) -> Option<Seq<char>> {
    match c {
        None => acc,
        Some(v) => match acc {
            None => Some(v),
            Some(a) => if str_le(a, v) {
                Some(v)
            } else {
                Some(a)
            },
        },
    }
}

/// The latest timestamp among the first `i` pages.
pub open spec fn latest_from(ms: Seq<FrontMatter>, i: int) -> Option<Seq<char>>
    decreases i,
{
    if i <= 0 {
        None
    } else {
        later_of(latest_from(ms, i - 1), lastmod_of(ms[i - 1]))
    }
}

fn meta_lastmod(m: &FrontMatter) -> (r: Option<Vec<char>>)
    ensures
        match r {
            Some(v) => lastmod_of(*m) == Some(v@),
            None => lastmod_of(*m) is None,
        },
{
    match &m.updated_at {
        Some(u) => Some(trim_chars(&chars_of(u.as_str()))),
        None => match &m.published_at {
            Some(p) => Some(trim_chars(&chars_of(p.as_str()))),
            None => None,
        },
    }
}

/// The latest of the pages' update-or-publication dates, the timestamp the
/// homepage and profile advertise.
pub fn latest_lastmod(metas: &Vec<FrontMatter>) -> (r: Option<String>)
    ensures
        match r {
            Some(v) => latest_from(metas@, metas@.len() as int) == Some(v@),
            None => latest_from(metas@, metas@.len() as int) is None,
        },
{
    let n = metas.len();
    let mut acc: Option<Vec<char>> = None;
    let mut i: usize = 0;
    while i < n
        invariant
            n == metas@.len(),
            i <= n,
            match acc {
                Some(v) => latest_from(metas@, i as int) == Some(v@),
                None => latest_from(metas@, i as int) is None,
            },
        decreases n - i,
    {
        let cand = meta_lastmod(&metas[i]);
        acc = match (acc, cand) {
            (a, None) => a,
            (None, Some(v)) => Some(v),
            (Some(a), Some(v)) => if chars_le(&a, &v) {
                Some(v)
            } else {
                Some(a)
            },
        };
        i = i + 1;
    }
    match acc {
        Some(v) => Some(string_from_chars(&v)),
        None => None,
    }
}

/// One URL of the sitemap.
pub struct SitemapEntry {
    pub loc: String,
    pub lastmod: Option<String>,
}

/// The sitemap entries for a site: the homepage and the profile page under
/// the latest timestamp, then one entry per page in manifest order.
pub fn sitemap_urls(metas: &Vec<FrontMatter>, site_url: &str) -> (r: Vec<SitemapEntry>)
    ensures
        r@.len() == metas@.len() + 2,
        r@[0].loc@ == site_url@ + "/"@,
        r@[1].loc@ == site_url@ + "/profile"@,
        opt_str(r@[0].lastmod) == latest_from(metas@, metas@.len() as int),
        opt_str(r@[1].lastmod) == latest_from(metas@, metas@.len() as int),
        forall|k: int| 2 <= k < metas@.len() + 2 ==> (#[trigger] r@[k]).loc@ == site_url@
            + "/blog/"@ + metas@[k - 2].slug@ && opt_str(r@[k].lastmod) == lastmod_of(
            metas@[k - 2],
        ),
{
    let home_lastmod = latest_lastmod(metas);
    let base = chars_of(site_url);
    let mut out: Vec<SitemapEntry> = Vec::new();

    let mut home_loc = chars_from(&base, 0);
    let mut home_tail = chars_of("/");
    home_loc.append(&mut home_tail);
    proof {
        assert(home_loc@ =~= site_url@ + "/"@);
    }
    out.push(
        SitemapEntry {
            loc: string_from_chars(&home_loc),
            lastmod: crate::text::clone_opt_string(&home_lastmod),
        },
    );

    let mut profile_loc = chars_from(&base, 0);
    let mut profile_tail = chars_of("/profile");
    profile_loc.append(&mut profile_tail);
    proof {
        assert(profile_loc@ =~= site_url@ + "/profile"@);
    }
    out.push(SitemapEntry { loc: string_from_chars(&profile_loc), lastmod: home_lastmod });

    let n = metas.len();
    let mut i: usize = 0;
    while i < n
        invariant
            n == metas@.len(),
            i <= n,
            out@.len() == i + 2,
            out@[0].loc@ == site_url@ + "/"@,
            out@[1].loc@ == site_url@ + "/profile"@,
            opt_str(out@[0].lastmod) == latest_from(metas@, metas@.len() as int),
            opt_str(out@[1].lastmod) == latest_from(metas@, metas@.len() as int),
            base@ == site_url@,
            forall|k: int| 2 <= k < i + 2 ==> (#[trigger] out@[k]).loc@ == site_url@ + "/blog/"@
                + metas@[k - 2].slug@ && opt_str(out@[k].lastmod) == lastmod_of(metas@[k - 2]),
        decreases n - i,
    {
        let mut loc = chars_from(&base, 0);
        let mut blog = chars_of("/blog/");
        loc.append(&mut blog);
        let mut slug = chars_of(metas[i].slug.as_str());
        loc.append(&mut slug);
        proof {
            assert(loc@ =~= site_url@ + "/blog/"@ + metas@[i as int].slug@);
        }
        out.push(SitemapEntry { loc: string_from_chars(&loc), lastmod: meta_lastmod_string(&metas[i]) });
        i = i + 1;
    }
    out
}

fn meta_lastmod_string(m: &FrontMatter) -> (r: Option<String>)
    ensures
        opt_str(r) == lastmod_of(*m),
{
    match meta_lastmod(m) {
        Some(v) => Some(string_from_chars(&v)),
        None => None,
    }
}

/// The XML fragment for one sitemap URL.
pub open spec fn entry_xml(loc: Seq<char>, lastmod: Option<Seq<char>>) -> Seq<char> {
    "  <url>\n    <loc>"@ + loc + "</loc>\n"@ + (match lastmod {
        Some(v) => "    <lastmod>"@ + v + "</lastmod>\n"@,
        None => Seq::<char>::empty(),
    }) + "  </url>\n"@
}

/// The XML fragments of the entries from position `i` on.
pub open spec fn entries_xml(es: Seq<SitemapEntry>, i: int) -> Seq<char>
    decreases es.len() - i when 0 <= i <= es.len()
{
    if i >= es.len() {
        Seq::empty()
    } else {
        entry_xml(es[i].loc@, opt_str(es[i].lastmod)) + entries_xml(es, i + 1)
    }
}

/// The whole sitemap document for these entries.
pub open spec fn xml_of(es: Seq<SitemapEntry>) -> Seq<char> {
    "<?xml version=\"1.0\" encoding=\"UTF-8\"?>\n<urlset xmlns=\"http://www.sitemaps.org/schemas/sitemap/0.9\">\n"@
        + entries_xml(es, 0) + "</urlset>\n"@
}

/// Renders the sitemap XML document for these URL entries.
pub fn render_xml(urls: &Vec<SitemapEntry>) -> (r: String)
    ensures
        r@ == xml_of(urls@),
{
    let mut body = String::new();
    let n = urls.len();
    let mut i: usize = 0;
    while i < n
        invariant
            n == urls@.len(),
            i <= n,
            body@ + entries_xml(urls@, i as int) =~= entries_xml(urls@, 0),
        decreases n - i,
    {
        body.append("  <url>\n    <loc>");
        body.append(urls[i].loc.as_str());
        body.append("</loc>\n");
        match &urls[i].lastmod {
            Some(lm) => {
                body.append("    <lastmod>");
                body.append(lm.as_str());
                body.append("</lastmod>\n");
            },
            None => {},
        }
        body.append("  </url>\n");
        proof {
            assert(entries_xml(urls@, i as int) =~= entry_xml(
                urls@[i as int].loc@,
                opt_str(urls@[i as int].lastmod),
            ) + entries_xml(urls@, i + 1));
        }
        i = i + 1;
    }
    let mut out = String::from_str(
        "<?xml version=\"1.0\" encoding=\"UTF-8\"?>\n<urlset xmlns=\"http://www.sitemaps.org/schemas/sitemap/0.9\">\n",
    );
    out.append(body.as_str());
    out.append("</urlset>\n");
    assert(out@ =~= xml_of(urls@));
    out
}

} // verus!
