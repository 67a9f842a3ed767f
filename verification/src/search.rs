//! Substring search over the snapshot's entries, with snippet extraction.
//!
//! A query is trimmed, lowercased once, and matched against each entry's
//! precomputed lowercase title and body text in snapshot order; scanning
//! stops once thirty hits are found.

use vstd::prelude::*;

use crate::text::{chars_of, clone_opt_string, opt_str, trim_chars, trim_spec};
use crate::trusted::{lower_chars, lower_of, string_from_chars};

verus! {

/// At most this many hits come back from one query.
pub const SEARCH_HIT_CAP: usize = 30;

/// The needle occurs in the haystack at position `i`.
pub open spec fn match_at(h: Seq<char>, n: Seq<char>, i: int) -> bool {
    0 <= i && i + n.len() <= h.len() && h.subrange(i, i + n.len() as int) == n
}

/// Position of the first occurrence of the needle at or after `i`, if any.
pub open spec fn find_first_from(h: Seq<char>, n: Seq<char>, i: int) -> Option<int>
    decreases h.len() - i when 0 <= i && n.len() > 0
{
    if i + n.len() > h.len() {
        None
    } else if match_at(h, n, i) {
        Some(i)
    } else {
        find_first_from(h, n, i + 1)
    }
}

/// Position of the first occurrence of the needle, if any; an empty needle
/// never counts as found.
pub open spec fn spec_find(h: Seq<char>, n: Seq<char>) -> Option<int> {
    if n.len() == 0 {
        None
    } else {
        find_first_from(h, n, 0)
    }
}

pub proof fn lemma_find_first_from(h: Seq<char>, n: Seq<char>, i: int)
    requires
        0 <= i,
        n.len() > 0,
    ensures
        match find_first_from(h, n, i) {
            Some(j) => i <= j && match_at(h, n, j) && forall|k: int|
                i <= k < j ==> !match_at(h, n, k),
            None => forall|k: int| i <= k ==> !match_at(h, n, k),
        },
    decreases h.len() - i,
{
    if i + n.len() > h.len() {
        assert forall|k: int| i <= k implies !match_at(h, n, k) by {}
    } else if !match_at(h, n, i) {
        lemma_find_first_from(h, n, i + 1);
    }
}

/// What `spec_find` returns: the first occurrence, or nothing when the
/// needle is empty or absent.
pub proof fn lemma_spec_find(h: Seq<char>, n: Seq<char>)
    ensures
        match spec_find(h, n) {
            Some(j) => n.len() > 0 && match_at(h, n, j) && forall|k: int|
                0 <= k < j ==> !match_at(h, n, k),
            None => n.len() == 0 || forall|k: int| !match_at(h, n, k),
        },
{
    if n.len() > 0 {
        lemma_find_first_from(h, n, 0);
        if find_first_from(h, n, 0) is None {
            assert forall|k: int| !match_at(h, n, k) by {
                if k >= 0 {
                    assert(!match_at(h, n, k));
                }
            }
        }
    }
}

/// Position of the first occurrence of `needle` in `haystack`; `None` when
/// the needle is empty or does not occur.
pub fn find_subsequence(haystack: &[char], needle: &[char]) -> (r: Option<usize>)
    ensures
        match r {
            Some(i) => spec_find(haystack@, needle@) == Some(i as int),
            None => spec_find(haystack@, needle@) is None,
        },
{
    let nl = needle.len();
    let hl = haystack.len();
    if nl == 0 {
        return None;
    }
    if nl > hl {
        return None;
    }
    let mut i: usize = 0;
    while i <= hl - nl
        invariant
            nl == needle@.len(),
            hl == haystack@.len(),
            0 < nl <= hl,
            i <= hl,
            find_first_from(haystack@, needle@, 0) == find_first_from(haystack@, needle@, i as int),
        decreases hl - i,
    {
        let mut j: usize = 0;
        let mut same: bool = true;
        while j < nl
            invariant
                nl == needle@.len(),
                hl == haystack@.len(),
                i + nl <= hl,
                j <= nl,
                same == (forall|k: int| 0 <= k < j ==> haystack@[i + k] == needle@[k]),
            decreases nl - j,
        {
            if haystack[i + j] != needle[j] {
                same = false;
                j = nl;
            } else {
                proof {
                    assert(haystack@[i + j] == needle@[j as int]);
                }
                j = j + 1;
            }
        }
        if same {
            proof {
                assert(haystack@.subrange(i as int, i + nl) =~= needle@);
                assert(match_at(haystack@, needle@, i as int));
            }
            return Some(i);
        }
        proof {
            if match_at(haystack@, needle@, i as int) {
                assert forall|k: int| 0 <= k < nl implies haystack@[i + k] == needle@[k] by {
                    assert(needle@[k] == haystack@.subrange(i as int, i + nl as int)[k]);
                }
            }
            assert(!match_at(haystack@, needle@, i as int));
        }
        i = i + 1;
    }
    None
}

/// The needle occurs somewhere in the haystack (an empty needle never does).
pub open spec fn contains_spec(h: Seq<char>, n: Seq<char>) -> bool {
    n.len() > 0 && exists|j: int| match_at(h, n, j)
}

/// Whether `needle` occurs in `haystack`.
pub fn contains_chars(haystack: &Vec<char>, needle: &Vec<char>) -> (r: bool)
    ensures
        r == contains_spec(haystack@, needle@),
{
    let found = find_subsequence(haystack.as_slice(), needle.as_slice());
    proof {
        lemma_spec_find(haystack@, needle@);
    }
    found.is_some()
}

/// The snippet window around the first occurrence of the query: forty
/// characters of context before the match and one hundred twenty after it,
/// clamped to the text; without an occurrence, the first one hundred sixty
/// characters.
pub open spec fn snippet_window(body_len: int, lower: Seq<char>, q: Seq<char>) -> (int, int) {
    match spec_find(lower, q) {
        Some(pos) => {
            let start0 = if pos >= 40 {
                pos - 40
            } else {
                0
            };
            let end = if pos + q.len() + 120 <= body_len {
                pos + q.len() + 120
            } else {
                body_len
            };
            let start = if start0 <= end {
                start0
            } else {
                end
            };
            (start, end)
        },
        None => (0, if body_len < 160 { body_len } else { 160 }),
    }
}

/// The snippet for a body around the first occurrence of the query, with an
/// ellipsis appended when the window stops short of the text's end.
pub open spec fn snippet_spec(body: Seq<char>, lower: Seq<char>, q: Seq<char>) -> Seq<char> {
    let w = snippet_window(body.len() as int, lower, q);
    let cut = body.subrange(w.0, w.1);
    if w.1 < body.len() {
        cut.push('\u{2026}')
    } else {
        cut
    }
}

/// Extracts the snippet of `body_chars` around the first occurrence of
/// `q_lc` in `body_lower`.  Windowing counts Unicode scalar values, so
/// multi-byte characters are never split.
pub fn build_snippet(body_chars: &Vec<char>, body_lower: &Vec<char>, q_lc: &Vec<char>) -> (r: Vec<
    char,
>)
    ensures
        r@ == snippet_spec(body_chars@, body_lower@, q_lc@),
{
    let body_len = body_chars.len();
    let hit = find_subsequence(body_lower.as_slice(), q_lc.as_slice());
    let (start, end): (usize, usize) = match hit {
        Some(pos) => {
            let lower_len = body_lower.len();
            proof {
                lemma_spec_find(body_lower@, q_lc@);
                assert(pos + q_lc@.len() <= lower_len);
            }
            let start0: usize = if pos >= 40 {
                pos - 40
            } else {
                0
            };
            // The match lies inside `body_lower`, so `pos + q_lc.len()`
            // cannot overflow.
            let base: usize = pos + q_lc.len();
            let end: usize = if body_len > base && body_len - base > 120 {
                base + 120
            } else {
                body_len
            };
            let start: usize = if start0 <= end {
                start0
            } else {
                end
            };
            (start, end)
        },
        None => (0, if body_len < 160 { body_len } else { 160 }),
    };
    let mut cut: Vec<char> = Vec::new();
    let mut i: usize = start;
    while i < end
        invariant
            start <= i <= end <= body_chars@.len(),
            cut@ == body_chars@.subrange(start as int, i as int),
        decreases end - i,
    {
        cut.push(body_chars[i]);
        i = i + 1;
    }
    assert(cut@ =~= body_chars@.subrange(start as int, end as int));
    if end < body_len {
        cut.push('\u{2026}');
    }
    cut
}

/// One entry of the derived search index: per-page text prepared once at
/// build time so queries do no case folding or markup stripping.
#[derive(Clone)]
pub struct SearchIndexEntry {
    pub slug: String,
    pub title: String,
    pub published_at: Option<String>,
    pub updated_at: Option<String>,
    pub description: Option<String>,
    pub tags: Vec<String>,
    /// Case-folded title, for matching.
    pub title_lc: Vec<char>,
    /// Case-folded plain body text, for matching.
    pub body_lc: Vec<char>,
    /// Plain body text, character-indexed, for snippet extraction.
    pub body_chars: Vec<char>,
}

/// The query-string parameters of a search request.
pub struct SearchQuery {
    pub q: Option<String>,
}

impl SearchQuery {
    /// The query text: the `q` parameter, or empty when absent.
    pub fn text(&self) -> (r: &str)
        ensures
            r@ == match self.q {
                Some(s) => s@,
                None => Seq::<char>::empty(),
            },
    {
        match &self.q {
            Some(s) => s.as_str(),
            None => {
                let empty = "";
                proof {
                    reveal_strlit("");
                }
                empty
            },
        }
    }
}

/// One search result.
#[derive(Clone)]
pub struct SearchHit {
    pub title: String,
    pub slug: String,
    pub snippet: String,
    pub published_at: Option<String>,
    pub updated_at: Option<String>,
}

/// The entry matches the (lowercased) query in its title or its body.
pub open spec fn entry_matches(e: SearchIndexEntry, q: Seq<char>) -> bool {
    contains_spec(e.title_lc@, q) || contains_spec(e.body_lc@, q)
}

/// The hit reports this entry for this query: identifying fields copied,
/// snippet extracted around the first occurrence.
pub open spec fn hit_for(h: SearchHit, e: SearchIndexEntry, q: Seq<char>) -> bool {
    &&& h.title@ == e.title@
    &&& h.slug@ == e.slug@
    &&& opt_str(h.published_at) == opt_str(e.published_at)
    &&& opt_str(h.updated_at) == opt_str(e.updated_at)
    &&& h.snippet@ == snippet_spec(e.body_chars@, e.body_lc@, q)
}

/// Indices of the entries among the first `i` that the query hits, in
/// order, capped at thirty.
pub open spec fn sel(entries: Seq<SearchIndexEntry>, q: Seq<char>, i: int) -> Seq<int>
    decreases i,
{
    if i <= 0 {
        Seq::empty()
    } else {
        let p = sel(entries, q, i - 1);
        if p.len() < 30 && entry_matches(entries[i - 1], q) {
            p.push(i - 1)
        } else {
            p
        }
    }
}

/// How many of the first `i` entries the query hits.
pub open spec fn count_matches(entries: Seq<SearchIndexEntry>, q: Seq<char>, i: int) -> int
    decreases i,
{
    if i <= 0 {
        0
    } else {
        count_matches(entries, q, i - 1) + if entry_matches(entries[i - 1], q) {
            1int
        } else {
            0int
        }
    }
}

/// Search cap and order: a query hits at most thirty entries, they are the
/// matching entries in snapshot order, and when thirty or more entries
/// match, exactly thirty come back.
pub proof fn lemma_search_cap(entries: Seq<SearchIndexEntry>, q: Seq<char>, i: int)
    requires
        0 <= i <= entries.len(),
    ensures
        sel(entries, q, i).len() <= 30,
        sel(entries, q, i).len() == if count_matches(entries, q, i) < 30 {
            count_matches(entries, q, i)
        } else {
            30
        },
        forall|k: int| 0 <= k < sel(entries, q, i).len() ==> 0 <= #[trigger] sel(entries, q, i)[k]
            < i,
        forall|k: int| 0 <= k < sel(entries, q, i).len() ==> entry_matches(
            entries[#[trigger] sel(entries, q, i)[k]],
            q,
        ),
        forall|k1: int, k2: int| 0 <= k1 < k2 < sel(entries, q, i).len() ==> #[trigger] sel(
            entries,
            q,
            i,
        )[k1] < #[trigger] sel(entries, q, i)[k2],
    decreases i,
{
    if i > 0 {
        lemma_search_cap(entries, q, i - 1);
    }
}

/// Once the cap is reached, scanning further entries adds nothing.
proof fn lemma_sel_saturated(entries: Seq<SearchIndexEntry>, q: Seq<char>, i: int, j: int)
    requires
        0 <= i <= j,
        sel(entries, q, i).len() == 30,
    ensures
        sel(entries, q, j) == sel(entries, q, i),
    decreases j - i,
{
    if j > i {
        lemma_sel_saturated(entries, q, i, j - 1);
    }
}

/// Answers a free-text query against the search index.
///
/// A blank query returns no hits.  Otherwise the query is lowercased once
/// and the entries are scanned in snapshot order; an entry is a hit when its
/// lowercase title or lowercase body contains the query, and scanning stops
/// at thirty hits.
pub fn query(entries: &Vec<SearchIndexEntry>, q_raw: &str) -> (r: Vec<SearchHit>)
    ensures
        trim_spec(q_raw@).len() == 0 ==> r@.len() == 0,
        trim_spec(q_raw@).len() > 0 ==> {
            let q = lower_of(trim_spec(q_raw@));
            let idxs = sel(entries@, q, entries@.len() as int);
            &&& r@.len() == idxs.len()
            &&& forall|k: int| 0 <= k < idxs.len() ==> 0 <= #[trigger] idxs[k] < entries@.len()
                && hit_for(r@[k], entries@[idxs[k]], q)
        },
{
    let q_chars = chars_of(q_raw);
    let qt = trim_chars(&q_chars);
    let mut r: Vec<SearchHit> = Vec::new();
    if qt.len() == 0 {
        return r;
    }
    let q = lower_chars(&qt);
    let n = entries.len();
    let mut i: usize = 0;
    while i < n && r.len() < SEARCH_HIT_CAP
        invariant
            n == entries@.len(),
            i <= n,
            q@ == lower_of(trim_spec(q_raw@)),
            r@.len() == sel(entries@, q@, i as int).len(),
            r@.len() <= 30,
            forall|k: int| 0 <= k < r@.len() ==> 0 <= #[trigger] sel(entries@, q@, i as int)[k]
                < i && hit_for(r@[k], entries@[sel(entries@, q@, i as int)[k]], q@),
        decreases n - i,
    {
        proof {
            lemma_search_cap(entries@, q@, i as int);
        }
        let e = &entries[i];
        let hit_title = contains_chars(&e.title_lc, &q);
        let hit_body = contains_chars(&e.body_lc, &q);
        if hit_title || hit_body {
            let snippet_chars = build_snippet(&e.body_chars, &e.body_lc, &q);
            let hit = SearchHit {
                title: e.title.clone(),
                slug: e.slug.clone(),
                snippet: string_from_chars(&snippet_chars),
                published_at: clone_opt_string(&e.published_at),
                updated_at: clone_opt_string(&e.updated_at),
            };
            r.push(hit);
        }
        proof {
            assert(sel(entries@, q@, i + 1).len() == r@.len());
        }
        i = i + 1;
    }
    proof {
        lemma_search_cap(entries@, q@, i as int);
        if i < n {
            lemma_sel_saturated(entries@, q@, i as int, n as int);
        }
    }
    r
}

} // verus!
