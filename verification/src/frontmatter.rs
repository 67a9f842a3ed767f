//! Per-page metadata: title, dates, tags, and free-form meta entries.
//!
//! Meta entries live in an association list ordered by first insertion;
//! lookup takes the first entry with the key, and insertion overwrites an
//! existing entry in place.

use vstd::prelude::*;

use crate::text::str_eq;

verus! {

/// Metadata of one published page, as the content manifest records it.
#[derive(Clone)]
pub struct FrontMatter {
    pub title: Option<String>,
    pub subtitle: Option<String>,
    pub genre: Option<String>,
    pub tags: Vec<String>,
    pub breadcrumbs: Vec<String>,
    pub published_at: Option<String>,
    pub updated_at: Option<String>,
    /// Unique URL path segment of the page.
    pub slug: String,
    /// Location of the page's compiled HTML artifact.
    pub html: String,
    /// Free-form meta entries, keyed by name.
    pub meta: Vec<(String, String)>,
    /// Location of the page's derived Markdown artifact, when one exists.
    pub markdown: Option<String>,
    pub reading_minutes: Option<u32>,
}

/// The characters of a meta list's keys and values.
pub open spec fn meta_view(m: Seq<(String, String)>) -> Seq<(Seq<char>, Seq<char>)> {
    m.map_values(|p: (String, String)| (p.0@, p.1@))
}

/// Value of the first entry with this key, at or after position `i`.
pub open spec fn assoc_find(m: Seq<(Seq<char>, Seq<char>)>, key: Seq<char>, i: int) -> Option<
    Seq<char>,
>
    decreases m.len() - i when 0 <= i <= m.len()
{
    if i >= m.len() {
        None
    } else if m[i].0 == key {
        Some(m[i].1)
    } else {
        assoc_find(m, key, i + 1)
    }
}

/// Value stored under this key, if any.
pub open spec fn meta_lookup(m: Seq<(Seq<char>, Seq<char>)>, key: Seq<char>) -> Option<Seq<char>> {
    assoc_find(m, key, 0)
}

/// Looks a key up in a meta list.
pub fn meta_get<'a>(meta: &'a Vec<(String, String)>, key: &str) -> (r: Option<&'a String>)
    ensures
        match r {
            Some(v) => meta_lookup(meta_view(meta@), key@) == Some(v@),
            None => meta_lookup(meta_view(meta@), key@) is None,
        },
{
    let n = meta.len();
    let mut i: usize = 0;
    while i < n
        invariant
            n == meta@.len(),
            i <= n,
            assoc_find(meta_view(meta@), key@, 0) == assoc_find(meta_view(meta@), key@, i as int),
        decreases n - i,
    {
        if str_eq(meta[i].0.as_str(), key) {
            assert(meta_view(meta@)[i as int].0 == key@);
            return Some(&meta[i].1);
        }
        assert(meta_view(meta@)[i as int].0 != key@);
        i = i + 1;
    }
    None
}

/// The list after storing a value under a key: the first entry with the key
/// is overwritten, or a new entry is appended.
pub open spec fn spec_meta_insert(
    m: Seq<(Seq<char>, Seq<char>)>,
    i: int,
    key: Seq<char>,
    value: Seq<char>,
) -> Seq<(Seq<char>, Seq<char>)>
    decreases m.len() - i when 0 <= i <= m.len()
{
    if i >= m.len() {
        m.push((key, value))
    } else if m[i].0 == key {
        m.update(i, (key, value))
    } else {
        spec_meta_insert(m, i + 1, key, value)
    }
}

/// Stores a value under a key, overwriting the first entry with that key
/// or appending a new one.
pub fn meta_insert(meta: &mut Vec<(String, String)>, key: String, value: String)
    ensures
        meta_view(final(meta)@) == spec_meta_insert(meta_view(old(meta)@), 0, key@, value@),
{
    let ghost k = key@;
    let ghost v = value@;
    let n = meta.len();
    let mut i: usize = 0;
    while i < n
        invariant
            n == meta@.len(),
            i <= n,
            k == key@,
            v == value@,
            *meta == *old(meta),
            spec_meta_insert(meta_view(meta@), 0, k, v) == spec_meta_insert(
                meta_view(meta@),
                i as int,
                k,
                v,
            ),
        decreases n - i,
    {
        if str_eq(meta[i].0.as_str(), key.as_str()) {
            let ghost before = meta_view(meta@);
            assert(before[i as int].0 == k);
            meta.set(i, (key, value));
            proof {
                assert(meta_view(meta@) =~= before.update(i as int, (k, v)));
            }
            return ;
        }
        assert(meta_view(meta@)[i as int].0 != k);
        i = i + 1;
    }
    let ghost before = meta_view(meta@);
    meta.push((key, value));
    proof {
        assert(meta_view(meta@) =~= before.push((k, v)));
    }
}

/// The list after storing a value only where the key is absent.
pub open spec fn spec_meta_put_default(
    m: Seq<(Seq<char>, Seq<char>)>,
    key: Seq<char>,
    value: Seq<char>,
) -> Seq<(Seq<char>, Seq<char>)> {
    if meta_lookup(m, key) is Some {
        m
    } else {
        m.push((key, value))
    }
}

/// Stores a value under a key only when the key is absent.
pub fn meta_put_default(meta: &mut Vec<(String, String)>, key: String, value: String)
    ensures
        meta_view(final(meta)@) == spec_meta_put_default(meta_view(old(meta)@), key@, value@),
{
    let present = meta_get(meta, key.as_str()).is_some();
    if !present {
        let ghost before = meta_view(meta@);
        meta.push((key, value));
        proof {
            assert(meta_view(meta@) =~= before.push((key@, value@)));
        }
    }
}

/// The page's description: the `description` meta entry, or failing that
/// the `og:description` entry.
pub open spec fn description_of(m: Seq<(Seq<char>, Seq<char>)>) -> Option<Seq<char>> {
    match meta_lookup(m, "description"@) {
        Some(v) => Some(v),
        None => meta_lookup(m, "og:description"@),
    }
}

/// Looks up a page's description meta entry, preferring `description` over
/// `og:description`.
pub fn lookup_description(meta: &Vec<(String, String)>) -> (r: Option<String>)
    ensures
        match r {
            Some(v) => description_of(meta_view(meta@)) == Some(v@),
            None => description_of(meta_view(meta@)) is None,
        },
{
    match meta_get(meta, "description") {
        Some(v) => Some(v.clone()),
        None => match meta_get(meta, "og:description") {
            Some(v) => Some(v.clone()),
            None => None,
        },
    }
}

} // verus!
