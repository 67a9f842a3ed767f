//! Snapshot assembly: one immutable, internally complete view of all site
//! content, built all-or-nothing from loaded page artifacts.
//!
//! The loader hands over, per manifest entry and in manifest order, either
//! the page's artifacts or the fault that prevented loading them.  Assembly
//! fails on the first faulty page and constructs nothing partial.

use vstd::prelude::*;

use crate::frontmatter::{description_of, FrontMatter};
use crate::search::SearchIndexEntry;
use crate::text::{
    chars_of, clone_opt_string, clone_strings, html_to_plain, opt_str, plain_of, str_eq,
};
use crate::trusted::{lower_chars, lower_of, string_from_chars};

verus! {

/// Everything loaded from disk and the chrome renderer for one page.
#[derive(Clone)]
pub struct PageArtifacts {
    /// The page's compiled HTML fragment, the source of its search text.
    pub body_html: String,
    /// The fully wrapped page HTML, ready to serve.
    pub prerendered: String,
    /// The original source document, when present on disk.
    pub raw_source: Option<String>,
    /// The derived Markdown variant, when present and enabled.
    pub markdown: Option<String>,
}

/// Why one page's unit of work failed.
#[derive(Clone, Debug)]
pub enum PageFault {
    /// The page's compiled artifact was missing or unreadable.
    MissingBody,
    /// The chrome renderer failed on this page.
    Render,
}

/// The outcome of loading one manifest entry.
pub struct PageLoad {
    pub meta: FrontMatter,
    pub artifacts: Result<PageArtifacts, PageFault>,
}

/// Why a build was aborted.  Each variant names the offending page.
#[derive(Clone, Debug)]
pub enum BuildError {
    /// A manifest entry has an empty slug.
    EmptySlug { index: usize },
    /// Two manifest entries share a slug.
    DuplicateSlug { index: usize },
    /// A page's artifact could not be read.
    PageLoad { index: usize, slug: String },
    /// The chrome renderer failed on a page.
    Render { index: usize, slug: String },
}

/// One page of a published snapshot.
#[derive(Clone)]
pub struct PageRecord {
    /// Unique URL path segment.
    pub slug: String,
    /// Fully wrapped page HTML.
    pub prerendered: String,
    /// Original source document, when available.
    pub raw_source: Option<String>,
    /// Derived Markdown, when available.
    pub markdown: Option<String>,
}

/// One complete, immutable snapshot of the site: every page, the derived
/// search index, and the prerendered non-slugged routes.
#[derive(Clone)]
pub struct AppState {
    pub prerender_top: String,
    pub prerender_profile: String,
    pub prerender_pgp: String,
    /// One record per manifest entry, in manifest order.
    pub pages: Vec<PageRecord>,
    /// One search entry per page, in the same order.
    pub search_index: Vec<SearchIndexEntry>,
}

/// The title that a page presents when its metadata names none.
pub open spec fn title_or_untitled(t: Option<String>) -> Seq<char> {
    match t {
        Some(s) => s@,
        None => "Untitled"@,
    }
}

/// The case-folded title used for matching: empty when there is no title.
pub open spec fn title_fold(t: Option<String>) -> Seq<char> {
    match t {
        Some(s) => lower_of(s@),
        None => Seq::empty(),
    }
}

/// The search entry derived from a page's metadata and compiled body.
pub open spec fn entry_for(e: SearchIndexEntry, meta: FrontMatter, body_html: String) -> bool {
    &&& e.slug@ == meta.slug@
    &&& e.title@ == title_or_untitled(meta.title)
    &&& opt_str(e.published_at) == opt_str(meta.published_at)
    &&& opt_str(e.updated_at) == opt_str(meta.updated_at)
    &&& opt_str(e.description) == description_of(crate::frontmatter::meta_view(meta.meta@))
    &&& e.tags@.map_values(|s: String| s@) == meta.tags@.map_values(|s: String| s@)
    &&& e.title_lc@ == title_fold(meta.title)
    &&& e.body_chars@ == plain_of(body_html@)
    &&& e.body_lc@ == lower_of(plain_of(body_html@))
}

/// The page record kept for a successfully loaded page.
pub open spec fn record_for(rec: PageRecord, p: PageLoad) -> bool {
    &&& p.artifacts is Ok
    &&& rec.slug@ == p.meta.slug@
    &&& rec.prerendered@ == p.artifacts->Ok_0.prerendered@
    &&& opt_str(rec.raw_source) == opt_str(p.artifacts->Ok_0.raw_source)
    &&& opt_str(rec.markdown) == opt_str(p.artifacts->Ok_0.markdown)
}

/// Page `i` of the load is sound: non-empty slug, not seen before, and its
/// artifacts all loaded.
pub open spec fn page_ok(pages: Seq<PageLoad>, i: int) -> bool {
    &&& pages[i].meta.slug@.len() > 0
    &&& forall|j: int| 0 <= j < i ==> pages[j].meta.slug@ != pages[i].meta.slug@
    &&& pages[i].artifacts is Ok
}

/// The error that page `i` of the load yields, by the first failed check.
pub open spec fn err_for(e: BuildError, pages: Seq<PageLoad>, i: int) -> bool {
    if pages[i].meta.slug@.len() == 0 {
        e == (BuildError::EmptySlug { index: i as usize })
    } else if exists|j: int| 0 <= j < i && pages[j].meta.slug@ == pages[i].meta.slug@ {
        e == (BuildError::DuplicateSlug { index: i as usize })
    } else {
        match pages[i].artifacts {
            Ok(_) => false,
            Err(PageFault::MissingBody) => e matches BuildError::PageLoad { index, slug }
                && index == i as usize && slug@ == pages[i].meta.slug@,
            Err(PageFault::Render) => e matches BuildError::Render { index, slug } && index
                == i as usize && slug@ == pages[i].meta.slug@,
        }
    }
}

/// The snapshot a load builds: singleton renders copied, and per manifest
/// entry, in order, one page record and one derived search entry.
pub open spec fn state_matches(
    s: AppState,
    pages: Seq<PageLoad>,
    top: String,
    profile: String,
    pgp: String,
) -> bool {
    &&& s.prerender_top@ == top@
    &&& s.prerender_profile@ == profile@
    &&& s.prerender_pgp@ == pgp@
    &&& s.pages@.len() == pages.len()
    &&& s.search_index@.len() == pages.len()
    &&& forall|i: int| 0 <= i < pages.len() ==> record_for(#[trigger] s.pages@[i], pages[i])
    &&& forall|i: int| 0 <= i < pages.len() ==> entry_for(
        #[trigger] s.search_index@[i],
        pages[i].meta,
        pages[i].artifacts->Ok_0.body_html,
    )
}

/// A snapshot is well formed: pages and search entries correspond one to
/// one, in order, under non-empty, unique slugs.
pub open spec fn wf_state(s: AppState) -> bool {
    &&& s.pages@.len() == s.search_index@.len()
    &&& forall|i: int| 0 <= i < s.pages@.len() ==> (#[trigger] s.pages@[i]).slug@
        == s.search_index@[i].slug@
    &&& forall|i: int| 0 <= i < s.pages@.len() ==> (#[trigger] s.pages@[i]).slug@.len() > 0
    &&& forall|i: int, j: int| 0 <= i < j < s.pages@.len() ==> (#[trigger] s.pages@[i]).slug@ != (
    #[trigger] s.pages@[j]).slug@
}

/// The failing page is a witness: the build did not succeed, and the error
/// names the first unsound page.
proof fn witness_err(pages: Seq<PageLoad>, i: int, e: BuildError)
    requires
        0 <= i < pages.len(),
        !page_ok(pages, i),
        forall|j: int| 0 <= j < i ==> page_ok(pages, j),
        err_for(e, pages, i),
    ensures
        !(forall|k: int| 0 <= k < pages.len() ==> page_ok(pages, k)),
        exists|k: int|
            0 <= k < pages.len() && !page_ok(pages, k) && (forall|j: int|
                0 <= j < k ==> page_ok(pages, j)) && err_for(e, pages, k),
{
    assert(0 <= i < pages.len() && !page_ok(pages, i) && (forall|j: int|
        0 <= j < i ==> page_ok(pages, j)) && err_for(e, pages, i));
}

/// Derives the search entry for one page from its metadata and compiled
/// HTML fragment: plain text extracted once, title and body case-folded
/// once.
pub fn make_search_entry(meta: &FrontMatter, body_html: &String) -> (e: SearchIndexEntry)
    ensures
        entry_for(e, *meta, *body_html),
{
    let body_chars = html_to_plain(body_html.as_str());
    let body_lc = lower_chars(&body_chars);
    let (title, title_lc): (String, Vec<char>) = match &meta.title {
        Some(t) => (t.clone(), lower_chars(&chars_of(t.as_str()))),
        None => {
            let untitled: Vec<char> = chars_of("Untitled");
            proof {
                reveal_strlit("Untitled");
            }
            (string_from_chars(&untitled), Vec::new())
        },
    };
    SearchIndexEntry {
        slug: meta.slug.clone(),
        title,
        published_at: clone_opt_string(&meta.published_at),
        updated_at: clone_opt_string(&meta.updated_at),
        description: crate::frontmatter::lookup_description(&meta.meta),
        tags: clone_strings(&meta.tags),
        title_lc,
        body_lc,
        body_chars,
    }
}

/// Assembles a snapshot from the loaded pages and the prerendered
/// non-slugged routes.
///
/// All-or-nothing: the first page with an empty or duplicate slug or with
/// failed artifacts aborts the build with an error naming it, and no
/// partial snapshot exists; when every page is sound, the snapshot holds
/// them all, in manifest order.
pub fn build_prerendered_state(
    pages: &Vec<PageLoad>,
    prerender_top: String,
    prerender_profile: String,
    prerender_pgp: String,
) -> (r: Result<AppState, BuildError>)
    ensures
        r is Ok <==> (forall|i: int| 0 <= i < pages@.len() ==> page_ok(pages@, i)),
        r matches Ok(s) ==> state_matches(s, pages@, prerender_top, prerender_profile,
            prerender_pgp,
        ) && wf_state(s),
        r matches Err(e) ==> exists|i: int|
            0 <= i < pages@.len() && !page_ok(pages@, i) && (forall|j: int|
                0 <= j < i ==> page_ok(pages@, j)) && err_for(e, pages@, i),
{
    let n = pages.len();
    let mut recs: Vec<PageRecord> = Vec::new();
    let mut entries: Vec<SearchIndexEntry> = Vec::new();
    let mut i: usize = 0;
    while i < n
        invariant
            n == pages@.len(),
            i <= n,
            recs@.len() == i,
            entries@.len() == i,
            forall|j: int| 0 <= j < i ==> page_ok(pages@, j),
            forall|j: int| 0 <= j < i ==> record_for(#[trigger] recs@[j], pages@[j]),
            forall|j: int| 0 <= j < i ==> entry_for(
                #[trigger] entries@[j],
                pages@[j].meta,
                pages@[j].artifacts->Ok_0.body_html,
            ),
        decreases n - i,
    {
        let p = &pages[i];
        if p.meta.slug.as_str().is_empty() {
            let e = BuildError::EmptySlug { index: i };
            proof {
                witness_err(pages@, i as int, e);
            }
            return Err(e);
        }
        let mut j: usize = 0;
        while j < i
            invariant
                i < n,
                n == pages@.len(),
                j <= i,
                p == &pages@[i as int],
                pages@[i as int].meta.slug@.len() > 0,
                forall|k: int| 0 <= k < i ==> page_ok(pages@, k),
                forall|k: int| 0 <= k < j ==> pages@[k].meta.slug@ != pages@[i as int].meta.slug@,
            decreases i - j,
        {
            if str_eq(pages[j].meta.slug.as_str(), p.meta.slug.as_str()) {
                let e = BuildError::DuplicateSlug { index: i };
                proof {
                    assert(pages@[j as int].meta.slug@ == pages@[i as int].meta.slug@);
                    assert(!page_ok(pages@, i as int));
                    witness_err(pages@, i as int, e);
                }
                return Err(e);
            }
            proof {
                assert(pages@[j as int].meta.slug@ != pages@[i as int].meta.slug@);
            }
            j = j + 1;
        }
        match &p.artifacts {
            Ok(a) => {
                let rec = PageRecord {
                    slug: p.meta.slug.clone(),
                    prerendered: a.prerendered.clone(),
                    raw_source: clone_opt_string(&a.raw_source),
                    markdown: clone_opt_string(&a.markdown),
                };
                let entry = make_search_entry(&p.meta, &a.body_html);
                recs.push(rec);
                entries.push(entry);
            },
            Err(PageFault::MissingBody) => {
                let e = BuildError::PageLoad { index: i, slug: p.meta.slug.clone() };
                proof {
                    witness_err(pages@, i as int, e);
                }
                return Err(e);
            },
            Err(PageFault::Render) => {
                let e = BuildError::Render { index: i, slug: p.meta.slug.clone() };
                proof {
                    witness_err(pages@, i as int, e);
                }
                return Err(e);
            },
        }
        i = i + 1;
    }
    let s = AppState {
        prerender_top,
        prerender_profile,
        prerender_pgp,
        pages: recs,
        search_index: entries,
    };
    proof {
        assert forall|a: int, b: int| 0 <= a < b < s.pages@.len() implies (
        #[trigger] s.pages@[a]).slug@ != (#[trigger] s.pages@[b]).slug@ by {
            assert(page_ok(pages@, b));
            assert(record_for(s.pages@[a], pages@[a]));
            assert(record_for(s.pages@[b], pages@[b]));
        }
        assert forall|k: int| 0 <= k < s.pages@.len() implies (#[trigger] s.pages@[k]).slug@.len()
            > 0 && s.pages@[k].slug@ == s.search_index@[k].slug@ by {
            assert(page_ok(pages@, k));
            assert(record_for(s.pages@[k], pages@[k]));
            assert(entry_for(s.search_index@[k], pages@[k].meta, pages@[k].artifacts->Ok_0.body_html));
        }
        assert(wf_state(s));
        assert(state_matches(s, pages@, prerender_top, prerender_profile, prerender_pgp));
    }
    Ok(s)
}

/// Index of the first page with this slug, at or after position `i`.
pub open spec fn page_index(pages: Seq<PageRecord>, slug: Seq<char>, i: int) -> Option<int>
    decreases pages.len() - i when 0 <= i <= pages.len()
{
    if i >= pages.len() {
        None
    } else if pages[i].slug@ == slug {
        Some(i)
    } else {
        page_index(pages, slug, i + 1)
    }
}

impl AppState {
    /// Looks a page up by its slug.
    pub fn find_page(&self, slug: &str) -> (r: Option<&PageRecord>)
        ensures
            match r {
                Some(rec) => page_index(self.pages@, slug@, 0) matches Some(j) && rec
                    == &self.pages@[j],
                None => page_index(self.pages@, slug@, 0) is None,
            },
    {
        let n = self.pages.len();
        let mut i: usize = 0;
        while i < n
            invariant
                n == self.pages@.len(),
                i <= n,
                page_index(self.pages@, slug@, 0) == page_index(self.pages@, slug@, i as int),
            decreases n - i,
        {
            if str_eq(self.pages[i].slug.as_str(), slug) {
                return Some(&self.pages[i]);
            }
            i = i + 1;
        }
        None
    }

    /// The prerendered HTML served for a slug, when a page carries it.
    pub fn get_page<'a>(&'a self, slug: &str) -> (r: Option<&'a String>)
        ensures
            match r {
                Some(v) => page_index(self.pages@, slug@, 0) matches Some(j) && v@
                    == self.pages@[j].prerendered@,
                None => page_index(self.pages@, slug@, 0) is None,
            },
    {
        match self.find_page(slug) {
            Some(rec) => Some(&rec.prerendered),
            None => None,
        }
    }
}

/// Two snapshots hold the same content: equal singleton renders, equal
/// pages, and equal derived search entries, in the same order.
pub open spec fn state_equiv(s1: AppState, s2: AppState) -> bool {
    &&& s1.prerender_top@ == s2.prerender_top@
    &&& s1.prerender_profile@ == s2.prerender_profile@
    &&& s1.prerender_pgp@ == s2.prerender_pgp@
    &&& s1.pages@.len() == s2.pages@.len()
    &&& s1.search_index@.len() == s2.search_index@.len()
    &&& forall|i: int| 0 <= i < s1.pages@.len() ==> {
        let a = #[trigger] s1.pages@[i];
        let b = s2.pages@[i];
        a.slug@ == b.slug@ && a.prerendered@ == b.prerendered@ && opt_str(a.raw_source) == opt_str(
            b.raw_source,
        ) && opt_str(a.markdown) == opt_str(b.markdown)
    }
    &&& forall|i: int| 0 <= i < s1.search_index@.len() ==> {
        let a = #[trigger] s1.search_index@[i];
        let b = s2.search_index@[i];
        a.slug@ == b.slug@ && a.title@ == b.title@ && opt_str(a.published_at) == opt_str(
            b.published_at,
        ) && opt_str(a.updated_at) == opt_str(b.updated_at) && opt_str(a.description) == opt_str(
            b.description,
        ) && a.tags@.map_values(|s: String| s@) == b.tags@.map_values(|s: String| s@) && a.title_lc@
            == b.title_lc@ && a.body_lc@ == b.body_lc@ && a.body_chars@ == b.body_chars@
    }
}

/// Determinism: two snapshots built from the same, unchanged input hold the
/// same pages and the same search entries — same slugs, same order, same
/// derived text.
pub proof fn lemma_build_deterministic(
    s1: AppState,
    s2: AppState,
    pages: Seq<PageLoad>,
    top: String,
    profile: String,
    pgp: String,
)
    requires
        state_matches(s1, pages, top, profile, pgp),
        state_matches(s2, pages, top, profile, pgp),
    ensures
        state_equiv(s1, s2),
{
}

} // verus!
