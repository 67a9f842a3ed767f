//! The prerendered post cards of the home page: one card per page for the
//! five newest manifest entries.

use vstd::prelude::*;

use crate::frontmatter::{description_of, meta_view, FrontMatter};

verus! {

/// One tag chip.
pub open spec fn chip_html(t: Seq<char>) -> Seq<char> {
    "<span class=\"px-2 py-1 text-xs rounded-full bg-slate-100 dark:bg-slate-800 text-slate-700 dark:text-slate-200\">#"@
        + t + "</span>"@
}

/// The chips of the tags from position `i` on.
pub open spec fn chips_html(tags: Seq<Seq<char>>, i: int) -> Seq<char>
    decreases tags.len() - i when 0 <= i <= tags.len()
{
    if i >= tags.len() {
        Seq::empty()
    } else {
        chip_html(tags[i]) + chips_html(tags, i + 1)
    }
}

/// The tag row of a card: its chips in a wrapper, or nothing without tags.
pub open spec fn tags_html(tags: Seq<Seq<char>>) -> Seq<char> {
    if tags.len() > 0 {
        "<div class=\"flex flex-wrap gap-2 pt-1\">"@ + chips_html(tags, 0) + "</div>"@
    } else {
        Seq::empty()
    }
}

/// The heading a card shows: the page's title, or its slug without one.
pub open spec fn card_title(m: FrontMatter) -> Seq<char> {
    match m.title {
        Some(t) => t@,
        None => m.slug@,
    }
}

/// The publication date a card shows, possibly empty.
pub open spec fn card_date(m: FrontMatter) -> Seq<char> {
    match m.published_at {
        Some(d) => d@,
        None => Seq::empty(),
    }
}

/// The update date a card shows: the update date, or the publication date
/// without one.
pub open spec fn card_updated(m: FrontMatter) -> Seq<char> {
    match m.updated_at {
        Some(u) => u@,
        None => card_date(m),
    }
}

/// The description a card shows, possibly empty.
pub open spec fn card_desc(m: FrontMatter) -> Seq<char> {
    match description_of(meta_view(m.meta@)) {
        Some(d) => d,
        None => Seq::empty(),
    }
}

/// The update line of a card, or nothing without a date.
pub open spec fn updated_html(u: Seq<char>) -> Seq<char> {
    if u.len() > 0 {
        "Updated: "@ + u
    } else {
        Seq::empty()
    }
}

/// The publication line of a card, or nothing without a date.
pub open spec fn published_html(d: Seq<char>) -> Seq<char> {
    if d.len() > 0 {
        "Published: "@ + d
    } else {
        Seq::empty()
    }
}

/// The opening of a card: its link and heading.
pub open spec fn card_head(m: FrontMatter) -> Seq<char> {
    "<article class=\"post-card space-y-2 border border-slate-200 dark:border-slate-700 rounded-xl p-4 bg-white/90 dark:bg-slate-900/70 shadow-sm backdrop-blur\"><div class=\"flex items-start justify-between gap-3\"><a href=\"/blog/"@
        + m.slug@
        + "\" class=\"text-lg font-semibold text-slate-900 dark:text-slate-100 hover:text-sky-600 dark:hover:text-sky-400\">"@
        + card_title(m) + "</a><div class=\"text-xs text-slate-500 dark:text-slate-400 text-right\">"@
}

/// The middle of a card: its update line and description.
pub open spec fn card_mid(m: FrontMatter) -> Seq<char> {
    updated_html(card_updated(m))
        + "</div></div><div class=\"text-sm text-slate-700 dark:text-slate-300 line-clamp-2\">"@
        + card_desc(m) + "</div><div class=\"text-sm text-slate-600 dark:text-slate-300\">"@
}

/// The end of a card: its publication line and tag row.
pub open spec fn card_foot(m: FrontMatter) -> Seq<char> {
    published_html(card_date(m)) + "</div>"@ + tags_html(m.tags@.map_values(|s: String| s@))
        + "</article>"@
}

/// One post card.
pub open spec fn card_html(m: FrontMatter) -> Seq<char> {
    card_head(m) + card_mid(m) + card_foot(m)
}

/// The cards of the pages from position `i` up to `n`.
pub open spec fn cards_from(ms: Seq<FrontMatter>, i: int, n: int) -> Seq<char>
    decreases n - i when 0 <= i <= n <= ms.len()
{
    if i >= n {
        Seq::empty()
    } else {
        card_html(ms[i]) + cards_from(ms, i + 1, n)
    }
}

/// The home page's card list: one card per page, manifest order, at most
/// five.
pub open spec fn cards_spec(ms: Seq<FrontMatter>) -> Seq<char> {
    cards_from(ms, 0, if ms.len() < 5 { ms.len() as int } else { 5 })
}

#[verifier::rlimit(60)]
fn append_card(out: &mut String, m: &FrontMatter)
    ensures
        final(out)@ == old(out)@ + card_html(*m),
{
    out.append(
        "<article class=\"post-card space-y-2 border border-slate-200 dark:border-slate-700 rounded-xl p-4 bg-white/90 dark:bg-slate-900/70 shadow-sm backdrop-blur\"><div class=\"flex items-start justify-between gap-3\"><a href=\"/blog/",
    );
    out.append(m.slug.as_str());
    out.append(
        "\" class=\"text-lg font-semibold text-slate-900 dark:text-slate-100 hover:text-sky-600 dark:hover:text-sky-400\">",
    );
    match &m.title {
        Some(t) => out.append(t.as_str()),
        None => out.append(m.slug.as_str()),
    }
    out.append("</a><div class=\"text-xs text-slate-500 dark:text-slate-400 text-right\">");
    assert(out@ =~= old(out)@ + card_head(*m));
    let ghost after_head = out@;
    let updated: &str = match &m.updated_at {
        Some(u) => u.as_str(),
        None => match &m.published_at {
            Some(d) => d.as_str(),
            None => "",
        },
    };
    proof {
        reveal_strlit("");
        assert(updated@ == card_updated(*m));
    }
    if !updated.is_empty() {
        out.append("Updated: ");
        out.append(updated);
    }
    out.append("</div></div><div class=\"text-sm text-slate-700 dark:text-slate-300 line-clamp-2\">");
    match crate::frontmatter::lookup_description(&m.meta) {
        Some(d) => out.append(d.as_str()),
        None => {},
    }
    out.append("</div><div class=\"text-sm text-slate-600 dark:text-slate-300\">");
    assert(out@ =~= after_head + card_mid(*m));
    let ghost after_mid = out@;
    let date: &str = match &m.published_at {
        Some(d) => d.as_str(),
        None => "",
    };
    proof {
        reveal_strlit("");
        assert(date@ == card_date(*m));
    }
    if !date.is_empty() {
        out.append("Published: ");
        out.append(date);
    }
    out.append("</div>");
    let ghost tagviews = m.tags@.map_values(|s: String| s@);
    if m.tags.len() > 0 {
        out.append("<div class=\"flex flex-wrap gap-2 pt-1\">");
        let n = m.tags.len();
        let mut k: usize = 0;
        let ghost mid = out@;
        while k < n
            invariant
                n == m.tags@.len(),
                k <= n,
                tagviews == m.tags@.map_values(|s: String| s@),
                out@ + chips_html(tagviews, k as int) =~= mid + chips_html(tagviews, 0),
            decreases n - k,
        {
            out.append(
                "<span class=\"px-2 py-1 text-xs rounded-full bg-slate-100 dark:bg-slate-800 text-slate-700 dark:text-slate-200\">#",
            );
            out.append(m.tags[k].as_str());
            out.append("</span>");
            proof {
                assert(chips_html(tagviews, k as int) =~= chip_html(tagviews[k as int])
                    + chips_html(tagviews, k + 1));
            }
            k = k + 1;
        }
        out.append("</div>");
    }
    out.append("</article>");
    assert(out@ =~= after_mid + card_foot(*m));
    assert(out@ =~= old(out)@ + card_html(*m));
}

/// Renders the home page's post cards: the five newest pages, in manifest
/// order, as prebuilt HTML.
pub fn build_cards_html(metas: &Vec<FrontMatter>) -> (r: String)
    ensures
        r@ == cards_spec(metas@),
{
    let n = if metas.len() < 5 {
        metas.len()
    } else {
        5
    };
    let mut out = String::new();
    let mut i: usize = 0;
    while i < n
        invariant
            n as int == (if metas@.len() < 5 {
                metas@.len() as int
            } else {
                5int
            }),
            n <= metas@.len(),
            i <= n,
            out@ + cards_from(metas@, i as int, n as int) =~= cards_spec(metas@),
        decreases n - i,
    {
        append_card(&mut out, &metas[i]);
        proof {
            assert(cards_from(metas@, i as int, n as int) =~= card_html(metas@[i as int])
                + cards_from(metas@, i + 1, n as int));
        }
        i = i + 1;
    }
    assert(out@ =~= cards_spec(metas@));
    out
}

/// Replaces the home page's post-list placeholder — wrapped in a paragraph
/// by the document compiler, or bare — with the prerendered cards.
pub fn inject_posts_list(html: &str, cards: &str) -> (r: String)
    ensures
        r@ == crate::text::replace_spec(
            crate::text::replace_spec(html@, "<p>POSTS_LIST_PLACEHOLDER</p>"@, cards@),
            "POSTS_LIST_PLACEHOLDER"@,
            cards@,
        ),
{
    let hv = crate::text::chars_of(html);
    let cv = crate::text::chars_of(cards);
    let wrapped = crate::text::chars_of("<p>POSTS_LIST_PLACEHOLDER</p>");
    let bare = crate::text::chars_of("POSTS_LIST_PLACEHOLDER");
    let pass1 = crate::text::replace_chars(&hv, &wrapped, &cv);
    let pass2 = crate::text::replace_chars(&pass1, &bare, &cv);
    crate::trusted::string_from_chars(&pass2)
}

} // verus!
