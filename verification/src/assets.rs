//! Asset resolution: manifest lookups, hashed-filename detection, and
//! content types by file extension.

use vstd::prelude::*;

use crate::frontmatter::{meta_lookup, meta_view};
use crate::text::{chars_eq_str, chars_of, chars_range, chars_starts_with, starts_with};

verus! {

/// Resolves an asset path through the generated manifest: the mapped
/// location when the manifest knows the path, the path itself otherwise.
pub fn asset_url(manifest: &Vec<(String, String)>, path: &str) -> (r: String)
    ensures
        r@ == match meta_lookup(meta_view(manifest@), path@) {
            Some(v) => v,
            None => path@,
        },
{
    match crate::frontmatter::meta_get(manifest, path) {
        Some(v) => v.clone(),
        None => path.to_owned(),
    }
}

/// Index of the last occurrence of `c`, if any.
pub open spec fn rfind_char(s: Seq<char>, c: char) -> Option<int>
    decreases s.len(),
{
    if s.len() == 0 {
        None
    } else if s.last() == c {
        Some(s.len() - 1)
    } else {
        rfind_char(s.drop_last(), c)
    }
}

pub proof fn lemma_rfind_char(s: Seq<char>, c: char)
    ensures
        match rfind_char(s, c) {
            Some(j) => 0 <= j < s.len() && s[j] == c && forall|k: int| j < k < s.len() ==> s[k]
                != c,
            None => forall|k: int| 0 <= k < s.len() ==> s[k] != c,
        },
    decreases s.len(),
{
    if s.len() > 0 && s.last() != c {
        lemma_rfind_char(s.drop_last(), c);
        assert forall|k: int| 0 <= k < s.len() - 1 implies s.drop_last()[k] == s[k] by {}
    }
}

/// Position of the last occurrence of `c`.
pub fn rindex_of_char(v: &Vec<char>, c: char) -> (r: Option<usize>)
    ensures
        match r {
            Some(j) => rfind_char(v@, c) == Some(j as int),
            None => rfind_char(v@, c) is None,
        },
{
    let n = v.len();
    let mut i: usize = n;
    proof {
        assert(v@.subrange(0, n as int) =~= v@);
    }
    while i > 0
        invariant
            n == v@.len(),
            i <= n,
            rfind_char(v@, c) == rfind_char(v@.subrange(0, i as int), c),
        decreases i,
    {
        proof {
            assert(v@.subrange(0, i as int).last() == v@[i - 1]);
            assert(v@.subrange(0, i as int).drop_last() =~= v@.subrange(0, i as int - 1));
        }
        if v[i - 1] == c {
            return Some(i - 1);
        }
        i = i - 1;
    }
    proof {
        assert(v@.subrange(0, 0) =~= Seq::<char>::empty());
    }
    None
}

/// An ASCII hexadecimal digit.
pub open spec fn is_hex_digit(c: char) -> bool {
    (48 <= c as u32 && c as u32 <= 57) || (97 <= c as u32 && c as u32 <= 102) || (65 <= c as u32
        && c as u32 <= 70)
}

fn hex_digit(c: char) -> (r: bool)
    ensures
        r == is_hex_digit(c),
{
    let u = c as u32;
    (48 <= u && u <= 57) || (97 <= u && u <= 102) || (65 <= u && u <= 70)
}

/// Every character is a hexadecimal digit.
pub open spec fn all_hex(s: Seq<char>) -> bool {
    forall|k: int| 0 <= k < s.len() ==> is_hex_digit(#[trigger] s[k])
}

/// The would-be content hash of a path: what stands between the last dash
/// and the last dot of its filename.
pub open spec fn hash_part(path: Seq<char>) -> Option<Seq<char>> {
    let filename = match rfind_char(path, '/') {
        Some(j) => path.subrange(j + 1, path.len() as int),
        None => path,
    };
    match rfind_char(filename, '.') {
        Some(d) => {
            let name = filename.subrange(0, d);
            match rfind_char(name, '-') {
                Some(h) => Some(name.subrange(h + 1, name.len() as int)),
                None => None,
            }
        },
        None => None,
    }
}

/// A path names a content-hashed asset: its filename, after the last dot is
/// removed, ends in a dash followed by eight or twelve hexadecimal digits.
pub open spec fn hashed_name(path: Seq<char>) -> bool {
    match hash_part(path) {
        Some(hash) => (hash.len() == 8 || hash.len() == 12) && all_hex(hash),
        None => false,
    }
}

/// Whether a path names a content-hashed asset, which may be cached
/// immutably.
pub fn is_hashed_filename(path: &str) -> (r: bool)
    ensures
        r == hashed_name(path@),
{
    let pv = chars_of(path);
    proof {
        lemma_rfind_char(pv@, '/');
    }
    let filename = match rindex_of_char(&pv, '/') {
        Some(j) => chars_range(&pv, j + 1, pv.len()),
        None => chars_range(&pv, 0, pv.len()),
    };
    proof {
        if rfind_char(pv@, '/') is None {
            assert(filename@ =~= pv@);
        }
        lemma_rfind_char(filename@, '.');
    }
    let dot = match rindex_of_char(&filename, '.') {
        Some(d) => d,
        None => {
            return false;
        },
    };
    let name = chars_range(&filename, 0, dot);
    proof {
        lemma_rfind_char(name@, '-');
    }
    let dash = match rindex_of_char(&name, '-') {
        Some(h) => h,
        None => {
            return false;
        },
    };
    let hash_len = name.len() - dash - 1;
    if hash_len != 8 && hash_len != 12 {
        return false;
    }
    let ghost hash = name@.subrange(dash + 1, name@.len() as int);
    proof {
        let spec_filename = match rfind_char(path@, '/') {
            Some(j) => path@.subrange(j + 1, path@.len() as int),
            None => path@,
        };
        assert(spec_filename == filename@);
        assert(rfind_char(spec_filename, '.') == Some(dot as int));
        let spec_name = spec_filename.subrange(0, dot as int);
        assert(spec_name == name@);
        assert(rfind_char(spec_name, '-') == Some(dash as int));
        assert(hash_part(path@) == Some(hash));
        assert(hash.len() == 8 || hash.len() == 12);
        assert(hashed_name(path@) == all_hex(hash));
    }
    let mut k: usize = dash + 1;
    while k < name.len()
        invariant
            dash < name@.len(),
            dash + 1 <= k <= name@.len(),
            hash == name@.subrange(dash + 1, name@.len() as int),
            hashed_name(path@) == all_hex(hash),
            forall|m: int| 0 <= m < k - dash - 1 ==> is_hex_digit(#[trigger] hash[m]),
        decreases name@.len() - k,
    {
        if !hex_digit(name[k]) {
            assert(!is_hex_digit(hash[k - dash - 1]));
            assert(!all_hex(hash));
            return false;
        }
        k = k + 1;
    }
    assert(all_hex(hash));
    true
}

/// A character with ASCII uppercase folded to lowercase.
pub open spec fn lower_ascii_char(c: char) -> char {
    if c == 'A' {
        'a'
    } else if c == 'B' {
        'b'
    } else if c == 'C' {
        'c'
    } else if c == 'D' {
        'd'
    } else if c == 'E' {
        'e'
    } else if c == 'F' {
        'f'
    } else if c == 'G' {
        'g'
    } else if c == 'H' {
        'h'
    } else if c == 'I' {
        'i'
    } else if c == 'J' {
        'j'
    } else if c == 'K' {
        'k'
    } else if c == 'L' {
        'l'
    } else if c == 'M' {
        'm'
    } else if c == 'N' {
        'n'
    } else if c == 'O' {
        'o'
    } else if c == 'P' {
        'p'
    } else if c == 'Q' {
        'q'
    } else if c == 'R' {
        'r'
    } else if c == 'S' {
        's'
    } else if c == 'T' {
        't'
    } else if c == 'U' {
        'u'
    } else if c == 'V' {
        'v'
    } else if c == 'W' {
        'w'
    } else if c == 'X' {
        'x'
    } else if c == 'Y' {
        'y'
    } else if c == 'Z' {
        'z'
    } else {
        c
    }
}

fn fold_ascii_char(c: char) -> (r: char)
    ensures
        r == lower_ascii_char(c),
{
    match c {
        'A' => 'a',
        'B' => 'b',
        'C' => 'c',
        'D' => 'd',
        'E' => 'e',
        'F' => 'f',
        'G' => 'g',
        'H' => 'h',
        'I' => 'i',
        'J' => 'j',
        'K' => 'k',
        'L' => 'l',
        'M' => 'm',
        'N' => 'n',
        'O' => 'o',
        'P' => 'p',
        'Q' => 'q',
        'R' => 'r',
        'S' => 's',
        'T' => 't',
        'U' => 'u',
        'V' => 'v',
        'W' => 'w',
        'X' => 'x',
        'Y' => 'y',
        'Z' => 'z',
        _ => c,
    }
}

/// The sequence with ASCII uppercase folded to lowercase.
pub open spec fn lower_ascii(s: Seq<char>) -> Seq<char> {
    s.map_values(|c: char| lower_ascii_char(c))
}

fn fold_ascii(v: &Vec<char>) -> (r: Vec<char>)
    ensures
        r@ == lower_ascii(v@),
{
    let n = v.len();
    let mut r: Vec<char> = Vec::new();
    let mut i: usize = 0;
    while i < n
        invariant
            n == v@.len(),
            i <= n,
            r@.len() == i,
            forall|k: int| 0 <= k < i ==> r@[k] == lower_ascii_char(v@[k]),
        decreases n - i,
    {
        r.push(fold_ascii_char(v[i]));
        i = i + 1;
    }
    assert(r@ =~= lower_ascii(v@));
    r
}

/// The content type served for a file extension, compared without regard to
/// ASCII case; extensions the site does not serve get none.
pub open spec fn mime_of(e: Seq<char>) -> Option<Seq<char>> {
    if e == "html"@ || e == "htm"@ {
        Some("text/html; charset=utf-8"@)
    } else if e == "css"@ {
        Some("text/css; charset=utf-8"@)
    } else if e == "js"@ {
        Some("application/javascript"@)
    } else if e == "json"@ {
        Some("application/json"@)
    } else if e == "png"@ {
        Some("image/png"@)
    } else if e == "jpg"@ || e == "jpeg"@ {
        Some("image/jpeg"@)
    } else if e == "webp"@ {
        Some("image/webp"@)
    } else if e == "avif"@ {
        Some("image/avif"@)
    } else if e == "svg"@ {
        Some("image/svg+xml"@)
    } else if e == "ico"@ {
        Some("image/x-icon"@)
    } else if e == "woff"@ {
        Some("font/woff"@)
    } else if e == "woff2"@ {
        Some("font/woff2"@)
    } else if e == "md"@ {
        Some("text/markdown; charset=utf-8"@)
    } else if e == "typ"@ {
        Some("text/vnd.typst; charset=utf-8"@)
    } else if e == "txt"@ || e == "pub"@ {
        Some("text/plain; charset=utf-8"@)
    } else if e == "asc"@ {
        Some("application/pgp-keys"@)
    } else if e == "gpg"@ {
        Some("application/pgp-signature"@)
    } else {
        None
    }
}

/// The content type to serve for a file extension, when the site knows it.
pub fn guess_mime(ext: &str) -> (r: Option<&'static str>)
    ensures
        match r {
            Some(m) => mime_of(lower_ascii(ext@)) == Some(m@),
            None => mime_of(lower_ascii(ext@)) is None,
        },
{
    let e = fold_ascii(&chars_of(ext));
    if chars_eq_str(&e, "html") || chars_eq_str(&e, "htm") {
        Some("text/html; charset=utf-8")
    } else if chars_eq_str(&e, "css") {
        Some("text/css; charset=utf-8")
    } else if chars_eq_str(&e, "js") {
        Some("application/javascript")
    } else if chars_eq_str(&e, "json") {
        Some("application/json")
    } else if chars_eq_str(&e, "png") {
        Some("image/png")
    } else if chars_eq_str(&e, "jpg") || chars_eq_str(&e, "jpeg") {
        Some("image/jpeg")
    } else if chars_eq_str(&e, "webp") {
        Some("image/webp")
    } else if chars_eq_str(&e, "avif") {
        Some("image/avif")
    } else if chars_eq_str(&e, "svg") {
        Some("image/svg+xml")
    } else if chars_eq_str(&e, "ico") {
        Some("image/x-icon")
    } else if chars_eq_str(&e, "woff") {
        Some("font/woff")
    } else if chars_eq_str(&e, "woff2") {
        Some("font/woff2")
    } else if chars_eq_str(&e, "md") {
        Some("text/markdown; charset=utf-8")
    } else if chars_eq_str(&e, "typ") {
        Some("text/vnd.typst; charset=utf-8")
    } else if chars_eq_str(&e, "txt") || chars_eq_str(&e, "pub") {
        Some("text/plain; charset=utf-8")
    } else if chars_eq_str(&e, "asc") {
        Some("application/pgp-keys")
    } else if chars_eq_str(&e, "gpg") {
        Some("application/pgp-signature")
    } else {
        None
    }
}

/// What follows the last dot of a path; the whole path without a dot.
pub open spec fn ext_of(path: Seq<char>) -> Seq<char> {
    match rfind_char(path, '.') {
        Some(j) => path.subrange(j + 1, path.len() as int),
        None => path,
    }
}

/// A lowercased extension the site serves as a static asset.
pub open spec fn asset_ext(e: Seq<char>) -> bool {
    e == "css"@ || e == "js"@ || e == "png"@ || e == "jpg"@ || e == "jpeg"@ || e == "webp"@ || e
        == "avif"@ || e == "svg"@ || e == "ico"@ || e == "woff"@ || e == "woff2"@ || e == "typ"@
        || e == "md"@
}

/// A lowercased extension of an image.
pub open spec fn image_ext(e: Seq<char>) -> bool {
    e == "png"@ || e == "jpg"@ || e == "jpeg"@ || e == "webp"@ || e == "avif"@ || e == "svg"@ || e
        == "ico"@
}

/// A request path served as a static asset: under the asset mount, or
/// carrying an asset extension.
pub open spec fn is_asset_path(path: Seq<char>) -> bool {
    starts_with(path, "/assets/"@) || asset_ext(lower_ascii(ext_of(path)))
}

/// A content type that may be displayed inline.
pub open spec fn inline_mime(m: Seq<char>) -> bool {
    starts_with(m, "text/"@) || starts_with(m, "image/"@) || m == "application/javascript"@ || m
        == "application/json"@ || m == "application/pgp-keys"@
}

/// How a response for a path is cached and typed.
pub struct CachePolicy {
    /// The path is a static asset.
    pub is_asset: bool,
    /// The cache-control directive to set.
    pub cache_control: &'static str,
    /// A weak validator is set; content-hashed assets need none.
    pub set_etag: bool,
    /// Negotiation headers vary the cached response.
    pub set_vary: bool,
    /// The content type to set, where the response needs one.
    pub content_type: Option<&'static str>,
    /// The response may be displayed inline.
    pub inline_disposition: bool,
}

/// Decides the caching headers for a request path.
///
/// An asset hashed by content is immutable for a year; an image revalidates
/// daily; any other asset revalidates after five minutes; everything else
/// must revalidate.  When the response arrived untyped (`needs_type`), the
/// type is guessed from the extension.
pub fn cache_policy(path: &str, needs_type: bool) -> (r: CachePolicy)
    ensures
        r.is_asset == is_asset_path(path@),
        !is_asset_path(path@) ==> r.cache_control@ == "no-cache, must-revalidate"@ && !r.set_etag
            && !r.set_vary && r.content_type is None && !r.inline_disposition,
        is_asset_path(path@) ==> {
            let hashed = is_asset_path(path@) && hashed_name(path@);
            &&& r.cache_control@ == (if hashed {
                "public, max-age=31536000, immutable"@
            } else if image_ext(lower_ascii(ext_of(path@))) {
                "public, max-age=86400, stale-while-revalidate=604800"@
            } else {
                "public, max-age=300, stale-while-revalidate=604800"@
            })
            &&& r.set_etag == !hashed
            &&& r.set_vary
            &&& (match r.content_type {
                Some(m) => needs_type && mime_of(lower_ascii(ext_of(path@))) == Some(m@)
                    && r.inline_disposition == inline_mime(m@),
                None => (!needs_type || mime_of(lower_ascii(ext_of(path@))) is None)
                    && !r.inline_disposition,
            })
        },
{
    let pv = chars_of(path);
    proof {
        lemma_rfind_char(pv@, '.');
    }
    let ext: &str = match rindex_of_char(&pv, '.') {
        Some(j) => {
            let e = path.substring_char(j + 1, pv.len());
            proof {
                assert(e@ == ext_of(path@));
            }
            e
        },
        None => path,
    };
    let el = fold_ascii(&chars_of(ext));
    let is_asset = chars_starts_with(&pv, "/assets/") || chars_eq_str(&el, "css") || chars_eq_str(
        &el,
        "js",
    ) || chars_eq_str(&el, "png") || chars_eq_str(&el, "jpg") || chars_eq_str(&el, "jpeg")
        || chars_eq_str(&el, "webp") || chars_eq_str(&el, "avif") || chars_eq_str(&el, "svg")
        || chars_eq_str(&el, "ico") || chars_eq_str(&el, "woff") || chars_eq_str(&el, "woff2")
        || chars_eq_str(&el, "typ") || chars_eq_str(&el, "md");
    if !is_asset {
        return CachePolicy {
            is_asset: false,
            cache_control: "no-cache, must-revalidate",
            set_etag: false,
            set_vary: false,
            content_type: None,
            inline_disposition: false,
        };
    }
    let hashed = is_hashed_filename(path);
    let is_image = chars_eq_str(&el, "png") || chars_eq_str(&el, "jpg") || chars_eq_str(
        &el,
        "jpeg",
    ) || chars_eq_str(&el, "webp") || chars_eq_str(&el, "avif") || chars_eq_str(&el, "svg")
        || chars_eq_str(&el, "ico");
    let cache_control: &'static str = if hashed {
        "public, max-age=31536000, immutable"
    } else if is_image {
        "public, max-age=86400, stale-while-revalidate=604800"
    } else {
        "public, max-age=300, stale-while-revalidate=604800"
    };
    let content_type: Option<&'static str> = if needs_type {
        guess_mime(ext)
    } else {
        None
    };
    let inline_disposition: bool = match content_type {
        Some(m) => {
            let mv = chars_of(m);
            chars_starts_with(&mv, "text/") || chars_starts_with(&mv, "image/") || chars_eq_str(
                &mv,
                "application/javascript",
            ) || chars_eq_str(&mv, "application/json") || chars_eq_str(&mv, "application/pgp-keys")
        },
        None => false,
    };
    CachePolicy {
        is_asset: true,
        cache_control,
        set_etag: !hashed,
        set_vary: true,
        content_type,
        inline_disposition,
    }
}

} // verus!
