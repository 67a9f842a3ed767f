//! Content-side processing of page sources: line splitting, front-matter
//! parsing, and the small text transforms the content pipeline applies.

use vstd::prelude::*;

use crate::frontmatter::{
    meta_insert, meta_lookup, meta_put_default, meta_view, spec_meta_insert, spec_meta_put_default,
    FrontMatter,
};
use crate::search::{contains_chars, contains_spec};
use crate::text::{
    after_prefix, chars_from, chars_range, chars_starts_with, find_char, index_of_char,
    is_space_char, opt_str, starts_with, trim_chars, trim_spec, trim_start_chars, trim_start_spec,
};
use crate::trusted::string_from_chars;

verus! {

/// A line with one trailing carriage return removed.
pub open spec fn strip_cr(l: Seq<char>) -> Seq<char> {
    if l.len() > 0 && l.last() == '\r' {
        l.drop_last()
    } else {
        l
    }
}

/// The lines of the text from position `i` on: split at `'\n'`, each line's
/// trailing `'\r'` removed, the final line ending optional.  A trailing
/// carriage return without a line feed stays in the last line.
pub open spec fn lines_from(s: Seq<char>, i: int) -> Seq<Seq<char>>
    decreases s.len() - i when 0 <= i <= s.len()
{
    if i >= s.len() {
        Seq::empty()
    } else {
        match find_char(s, '\n', i) {
            Some(j) => if i <= j < s.len() {
                seq![strip_cr(s.subrange(i, j))] + lines_from(s, j + 1)
            } else {
                seq![s.subrange(i, s.len() as int)]
            },
            None => seq![s.subrange(i, s.len() as int)],
        }
    }
}

/// Splits text into lines at `'\n'`, removing one trailing `'\r'` per line.
pub fn split_lines(v: &Vec<char>) -> (r: Vec<Vec<char>>)
    ensures
        r@.map_values(|l: Vec<char>| l@) == lines_from(v@, 0),
{
    let n = v.len();
    let mut out: Vec<Vec<char>> = Vec::new();
    let mut i: usize = 0;
    while i < n
        invariant
            n == v@.len(),
            i <= n,
            out@.map_values(|l: Vec<char>| l@) + lines_from(v@, i as int) =~= lines_from(v@, 0),
        decreases n - i,
    {
        let ghost pre = out@.map_values(|l: Vec<char>| l@);
        match index_of_char(v, '\n', i) {
            Some(j) => {
                let mut seg = chars_range(v, i, j);
                if seg.len() > 0 && seg[seg.len() - 1] == '\r' {
                    seg.pop();
                }
                assert(seg@ == strip_cr(v@.subrange(i as int, j as int)));
                out.push(seg);
                proof {
                    assert(out@.map_values(|l: Vec<char>| l@) =~= pre.push(
                        strip_cr(v@.subrange(i as int, j as int)),
                    ));
                    assert(pre.push(strip_cr(v@.subrange(i as int, j as int))) =~= pre + seq![
                        strip_cr(v@.subrange(i as int, j as int)),
                    ]);
                }
                i = j + 1;
            },
            None => {
                let seg = chars_from(v, i);
                out.push(seg);
                proof {
                    assert(out@.map_values(|l: Vec<char>| l@) =~= pre + seq![
                        v@.subrange(i as int, v@.len() as int),
                    ]);
                }
                i = n;
            },
        }
    }
    assert(out@.map_values(|l: Vec<char>| l@) =~= lines_from(v@, 0));
    out
}

/// A trimmed tag, kept only when non-empty.
pub open spec fn maybe_tag(t: Seq<char>) -> Seq<Seq<char>> {
    if t.len() > 0 {
        seq![t]
    } else {
        Seq::empty()
    }
}

/// The tags of a comma-separated list from position `i` on: each segment
/// trimmed, empty segments dropped.
pub open spec fn tags_from(s: Seq<char>, i: int) -> Seq<Seq<char>>
    decreases s.len() - i when 0 <= i <= s.len()
{
    match find_char(s, ',', i) {
        Some(j) => if i <= j < s.len() {
            maybe_tag(trim_spec(s.subrange(i, j))) + tags_from(s, j + 1)
        } else {
            maybe_tag(trim_spec(s.subrange(i, s.len() as int)))
        },
        None => maybe_tag(trim_spec(s.subrange(i, s.len() as int))),
    }
}

/// Splits a comma-separated tag list, trimming each tag and dropping empty
/// ones.
pub fn parse_tags(v: &Vec<char>) -> (r: Vec<String>)
    ensures
        r@.map_values(|s: String| s@) == tags_from(v@, 0),
{
    let n = v.len();
    let mut out: Vec<String> = Vec::new();
    let mut i: usize = 0;
    let mut done: bool = false;
    while !done
        invariant
            n == v@.len(),
            i <= n,
            !done ==> out@.map_values(|s: String| s@) + tags_from(v@, i as int) =~= tags_from(
                v@,
                0,
            ),
            done ==> out@.map_values(|s: String| s@) =~= tags_from(v@, 0),
        decreases n - i + if done {
            0int
        } else {
            1int
        },
    {
        let ghost pre = out@.map_values(|s: String| s@);
        match index_of_char(v, ',', i) {
            Some(j) => {
                let seg = trim_chars(&chars_range(v, i, j));
                if seg.len() > 0 {
                    out.push(string_from_chars(&seg));
                }
                proof {
                    assert(out@.map_values(|s: String| s@) =~= pre + maybe_tag(
                        trim_spec(v@.subrange(i as int, j as int)),
                    ));
                }
                i = j + 1;
            },
            None => {
                let seg = trim_chars(&chars_from(v, i));
                if seg.len() > 0 {
                    out.push(string_from_chars(&seg));
                }
                proof {
                    assert(out@.map_values(|s: String| s@) =~= pre + maybe_tag(
                        trim_spec(v@.subrange(i as int, v@.len() as int)),
                    ));
                }
                done = true;
            },
        }
    }
    out
}

/// The lines from position `i` on, joined by single newlines.
pub open spec fn join_nl(ls: Seq<Seq<char>>, i: int) -> Seq<char>
    decreases ls.len() - i when 0 <= i <= ls.len()
{
    if i >= ls.len() {
        Seq::empty()
    } else if i == ls.len() - 1 {
        ls[i]
    } else {
        ls[i] + seq!['\n'] + join_nl(ls, i + 1)
    }
}

/// Joins lines with newlines, without a trailing one.
pub fn join_lines(ls: &Vec<Vec<char>>) -> (r: Vec<char>)
    ensures
        r@ == join_nl(ls@.map_values(|l: Vec<char>| l@), 0),
{
    let ghost lv = ls@.map_values(|l: Vec<char>| l@);
    let n = ls.len();
    let mut out: Vec<char> = Vec::new();
    let mut i: usize = 0;
    while i < n
        invariant
            n == ls@.len(),
            lv == ls@.map_values(|l: Vec<char>| l@),
            i <= n,
            out@ + join_nl(lv, i as int) =~= join_nl(lv, 0),
            i == n ==> out@ =~= join_nl(lv, 0),
        decreases n - i,
    {
        let mut seg = chars_from(&ls[i], 0);
        assert(seg@ =~= lv[i as int]);
        out.append(&mut seg);
        if i + 1 < n {
            out.push('\n');
        }
        i = i + 1;
    }
    assert(out@ =~= join_nl(lv, 0));
    out
}

/// A line survives preamble stripping unless it is an import of the shared
/// preamble: leading whitespace, then `#import`, with `preamble.typ`
/// somewhere in the line.
pub open spec fn keeps_line(l: Seq<char>) -> bool {
    !(starts_with(trim_start_spec(l), "#import"@) && contains_spec(l, "preamble.typ"@))
}

/// The lines from position `i` on that survive preamble stripping.
pub open spec fn kept_lines(ls: Seq<Seq<char>>, i: int) -> Seq<Seq<char>>
    decreases ls.len() - i when 0 <= i <= ls.len()
{
    if i >= ls.len() {
        Seq::empty()
    } else if keeps_line(ls[i]) {
        seq![ls[i]] + kept_lines(ls, i + 1)
    } else {
        kept_lines(ls, i + 1)
    }
}

/// Removes lines that import the shared preamble, which the compiler
/// prepends itself, and joins the rest with newlines.
pub fn strip_preamble_import(source: &str) -> (r: String)
    ensures
        r@ == join_nl(kept_lines(lines_from(source@, 0), 0), 0),
{
    let source_chars = crate::text::chars_of(source);
    let lines = split_lines(&source_chars);
    let ghost lv = lines_from(source@, 0);
    let needle = crate::text::chars_of("preamble.typ");
    let n = lines.len();
    let mut kept: Vec<Vec<char>> = Vec::new();
    let mut i: usize = 0;
    while i < n
        invariant
            n == lines@.len(),
            i <= n,
            lines@.map_values(|l: Vec<char>| l@) == lv,
            needle@ == "preamble.typ"@,
            kept@.map_values(|l: Vec<char>| l@) + kept_lines(lv, i as int) =~= kept_lines(lv, 0),
        decreases n - i,
    {
        let ghost pre = kept@.map_values(|l: Vec<char>| l@);
        let line = &lines[i];
        let head = trim_start_chars(line);
        let is_import = chars_starts_with(&head, "#import") && contains_chars(line, &needle);
        if !is_import {
            let seg = chars_from(line, 0);
            proof {
                assert(seg@ =~= lv[i as int]);
            }
            kept.push(seg);
            proof {
                assert(kept@.map_values(|l: Vec<char>| l@) =~= pre + seq![lv[i as int]]);
            }
        }
        i = i + 1;
    }
    let joined = join_lines(&kept);
    string_from_chars(&joined)
}

/// How many characters of the text from position `i` on are not whitespace.
pub open spec fn count_non_space(s: Seq<char>, i: int) -> int
    decreases s.len() - i when 0 <= i <= s.len()
{
    if i >= s.len() {
        0
    } else {
        (if is_space_char(s[i]) {
            0int
        } else {
            1int
        }) + count_non_space(s, i + 1)
    }
}

/// The estimated reading time of a compiled page: markup stripped, one
/// minute per five hundred non-whitespace characters, rounded up, at least
/// one minute.
pub open spec fn reading_minutes_spec(html: Seq<char>) -> int {
    let c = count_non_space(crate::text::strip_tags_spec(html), 0);
    let m = if c % 500 == 0 {
        c / 500
    } else {
        c / 500 + 1
    };
    let m1 = if m < 1 {
        1int
    } else {
        m
    };
    if m1 > u32::MAX as int {
        u32::MAX as int
    } else {
        m1
    }
}

/// Estimates a page's reading time in minutes from its compiled HTML.
pub fn estimate_reading_minutes(html: &str) -> (r: u32)
    ensures
        r as int == reading_minutes_spec(html@),
{
    let cs = crate::text::chars_of(html);
    let stripped = crate::text::strip_tags(&cs);
    let n = stripped.len();
    let mut count: usize = 0;
    let mut i: usize = 0;
    while i < n
        invariant
            n == stripped@.len(),
            i <= n,
            count <= i,
            count == count_non_space(stripped@, 0) - count_non_space(stripped@, i as int),
        decreases n - i,
    {
        if !crate::text::space_char(stripped[i]) {
            count = count + 1;
        }
        i = i + 1;
    }
    let mins: usize = count / 500 + if count % 500 != 0 {
        1
    } else {
        0
    };
    let mins = if mins < 1 {
        1
    } else {
        mins
    };
    if mins > u32::MAX as usize {
        u32::MAX
    } else {
        mins as u32
    }
}

/// Finishes one compiled post: records where its HTML artifact will live,
/// estimates its reading time, and minifies the HTML when asked to.
pub fn finish_post(meta: FrontMatter, html: String, minify: bool) -> (r: (FrontMatter, String))
    ensures
        r.0.title == meta.title,
        r.0.subtitle == meta.subtitle,
        r.0.genre == meta.genre,
        r.0.tags == meta.tags,
        r.0.breadcrumbs == meta.breadcrumbs,
        r.0.published_at == meta.published_at,
        r.0.updated_at == meta.updated_at,
        r.0.slug == meta.slug,
        r.0.meta == meta.meta,
        r.0.markdown == meta.markdown,
        r.0.html@ == "generated/"@ + meta.slug@ + ".html"@,
        r.0.reading_minutes matches Some(m) && m as int == reading_minutes_spec(html@),
        minify ==> r.1@ == crate::trusted::minified_of(html@),
        !minify ==> r.1@ == html@,
{
    let minutes = estimate_reading_minutes(html.as_str());
    let mut path = crate::text::chars_of("generated/");
    let mut slug = crate::text::chars_of(meta.slug.as_str());
    path.append(&mut slug);
    let mut suffix = crate::text::chars_of(".html");
    path.append(&mut suffix);
    let fm = FrontMatter {
        html: string_from_chars(&path),
        reading_minutes: Some(minutes),
        ..meta
    };
    (fm, maybe_minify_html(html, minify))
}

/// Minifies a compiled page's HTML when minification is on; hands the text
/// back unchanged when it is off.
pub fn maybe_minify_html(html: String, minify: bool) -> (r: String)
    ensures
        minify ==> r@ == crate::trusted::minified_of(html@),
        !minify ==> r@ == html@,
{
    if minify {
        crate::trusted::minify_html_text(html)
    } else {
        html
    }
}

/// The front matter gathered while walking a page source, line by line.
pub struct FmState {
    pub title: Option<Seq<char>>,
    pub subtitle: Option<Seq<char>>,
    pub genre: Option<Seq<char>>,
    pub tags: Seq<Seq<char>>,
    pub published_at: Option<Seq<char>>,
    pub updated_at: Option<Seq<char>>,
    pub meta: Seq<(Seq<char>, Seq<char>)>,
    pub body: Seq<Seq<char>>,
}

/// Nothing gathered yet.
pub open spec fn fm_init() -> FmState {
    FmState {
        title: None,
        subtitle: None,
        genre: None,
        tags: Seq::empty(),
        published_at: None,
        updated_at: None,
        meta: Seq::empty(),
        body: Seq::empty(),
    }
}

/// The state after one line: a `//:` directive sets the field its key
/// names, a `meta>key: value` directive stores a meta entry, and every
/// other line — a directive with no known key included — belongs to the
/// body.
pub open spec fn fm_step(st: FmState, l: Seq<char>) -> FmState {
    if !starts_with(l, "//:"@) {
        FmState { body: st.body.push(l), ..st }
    } else {
        let t = trim_spec(after_prefix(l, "//:"@));
        if starts_with(t, "title:"@) {
            FmState { title: Some(trim_spec(after_prefix(t, "title:"@))), ..st }
        } else if starts_with(t, "subtitle:"@) {
            FmState { subtitle: Some(trim_spec(after_prefix(t, "subtitle:"@))), ..st }
        } else if starts_with(t, "genre:"@) {
            FmState { genre: Some(trim_spec(after_prefix(t, "genre:"@))), ..st }
        } else if starts_with(t, "tags:"@) {
            FmState { tags: tags_from(after_prefix(t, "tags:"@), 0), ..st }
        } else if starts_with(t, "date:"@) {
            FmState { published_at: Some(trim_spec(after_prefix(t, "date:"@))), ..st }
        } else if starts_with(t, "updated:"@) {
            FmState { updated_at: Some(trim_spec(after_prefix(t, "updated:"@))), ..st }
        } else if starts_with(t, "meta>"@) {
            let rest = after_prefix(t, "meta>"@);
            match find_char(rest, ':', 0) {
                Some(j) => {
                    let k = trim_spec(rest.subrange(0, j));
                    let v = trim_spec(rest.subrange(j + 1, rest.len() as int));
                    if k.len() > 0 && v.len() > 0 {
                        FmState { meta: spec_meta_insert(st.meta, 0, k, v), ..st }
                    } else {
                        st
                    }
                },
                None => FmState { body: st.body.push(l), ..st },
            }
        } else {
            FmState { body: st.body.push(l), ..st }
        }
    }
}

/// The state after walking the lines from position `i` on.
pub open spec fn fm_fold(lines: Seq<Seq<char>>, i: int, st: FmState) -> FmState
    decreases lines.len() - i when 0 <= i <= lines.len()
{
    if i >= lines.len() {
        st
    } else {
        fm_fold(lines, i + 1, fm_step(st, lines[i]))
    }
}

/// A date widened to a full timestamp when it carries no time of day.
pub open spec fn widen_date(d: Seq<char>) -> Seq<char> {
    if find_char(d, 'T', 0) is Some {
        d
    } else {
        d + "T00:00:00.000Z"@
    }
}

/// The site-wide meta defaults applied after the walk: titles mirrored into
/// `title` and `og:title`, the site's authorship and Open Graph defaults
/// filled in where absent, and a publication timestamp derived from the
/// date when none was given.
pub open spec fn fm_finalize(st: FmState) -> FmState {
    let m0 = st.meta;
    let m1 = match st.title {
        Some(t) => spec_meta_put_default(
            spec_meta_put_default(m0, "title"@, t),
            "og:title"@,
            t,
        ),
        None => m0,
    };
    let m2 = spec_meta_put_default(m1, "author"@, "すずねーう"@);
    let m3 = spec_meta_put_default(m2, "link:author"@, "https://twitter.com/suzuneu_discord"@);
    let m4 = spec_meta_put_default(m3, "referrer"@, "strict-origin-when-cross-origin"@);
    let m5 = spec_meta_put_default(m4, "og:site_name"@, "すずねーうのウェブサイト"@);
    let m6 = spec_meta_put_default(m5, "og:locale"@, "ja_JP"@);
    let m7 = spec_meta_put_default(m6, "og:type"@, "article"@);
    let m8 = if meta_lookup(m7, "article:published_time"@) is None && st.published_at is Some {
        m7.push(("article:published_time"@, widen_date(st.published_at->0)))
    } else {
        m7
    };
    FmState { meta: m8, ..st }
}

/// What parsing a page source yields: the front matter of its directive
/// lines, finalized with the site defaults.
pub open spec fn fm_result(source: Seq<char>) -> FmState {
    fm_finalize(fm_fold(lines_from(source, 0), 0, fm_init()))
}

/// The rest of a directive after the given key, trimmed; nothing when the
/// line does not carry the key.
fn take_directive(line: &Vec<char>, key: &str) -> (r: Option<Vec<char>>)
    ensures
        match r {
            Some(v) => starts_with(line@, key@) && v@ == trim_spec(after_prefix(line@, key@)),
            None => !starts_with(line@, key@),
        },
{
    match take_prefix(line, key) {
        Some(rest) => Some(trim_chars(&rest)),
        None => None,
    }
}

/// The rest of a line after the given prefix, untrimmed; nothing when the
/// line does not carry the prefix.
fn take_prefix(line: &Vec<char>, key: &str) -> (r: Option<Vec<char>>)
    ensures
        match r {
            Some(v) => starts_with(line@, key@) && v@ == after_prefix(line@, key@),
            None => !starts_with(line@, key@),
        },
{
    if chars_starts_with(line, key) {
        Some(chars_from(line, key.unicode_len()))
    } else {
        None
    }
}

/// The view of an optional character buffer.
pub open spec fn opt_chars(o: Option<Vec<char>>) -> Option<Seq<char>> {
    match o {
        Some(v) => Some(v@),
        None => None,
    }
}

fn opt_chars_to_string(o: &Option<Vec<char>>) -> (r: Option<String>)
    ensures
        opt_str(r) == opt_chars(*o),
{
    match o {
        Some(v) => Some(string_from_chars(v)),
        None => None,
    }
}

/// Parses a page source: `//:` directive lines become the page's front
/// matter, every other line belongs to the body, and the site-wide meta
/// defaults are filled in afterwards.
///
/// Returns the front matter — slug as given, artifact locations unset — and
/// the body, the non-directive lines joined by newlines.
pub fn parse_front_matter(slug: &str, source: &str) -> (r: (FrontMatter, String))
    ensures
        ({
            let st = fm_result(source@);
            &&& opt_str(r.0.title) == st.title
            &&& opt_str(r.0.subtitle) == st.subtitle
            &&& opt_str(r.0.genre) == st.genre
            &&& r.0.tags@.map_values(|s: String| s@) == st.tags
            &&& r.0.breadcrumbs@.len() == 0
            &&& opt_str(r.0.published_at) == st.published_at
            &&& opt_str(r.0.updated_at) == st.updated_at
            &&& r.0.slug@ == slug@
            &&& r.0.html@.len() == 0
            &&& meta_view(r.0.meta@) == st.meta
            &&& r.0.markdown is None
            &&& r.0.reading_minutes is None
            &&& r.1@ == join_nl(st.body, 0)
        }),
{
    let source_chars = crate::text::chars_of(source);
    let lines = split_lines(&source_chars);
    let ghost lv = lines_from(source@, 0);

    let mut title: Option<Vec<char>> = None;
    let mut subtitle: Option<Vec<char>> = None;
    let mut genre: Option<Vec<char>> = None;
    let mut tags: Vec<String> = Vec::new();
    let mut published_at: Option<Vec<char>> = None;
    let mut updated_at: Option<Vec<char>> = None;
    let mut meta: Vec<(String, String)> = Vec::new();
    let mut body: Vec<Vec<char>> = Vec::new();

    proof {
        assert(tags@.map_values(|s: String| s@) =~= Seq::<Seq<char>>::empty());
        assert(meta_view(meta@) =~= Seq::<(Seq<char>, Seq<char>)>::empty());
        assert(body@.map_values(|l: Vec<char>| l@) =~= Seq::<Seq<char>>::empty());
    }
    let n = lines.len();
    let mut i: usize = 0;
    while i < n
        invariant
            n == lines@.len(),
            i <= n,
            lv == lines_from(source@, 0),
            lines@.map_values(|l: Vec<char>| l@) == lv,
            fm_fold(lv, 0, fm_init()) == fm_fold(
                lv,
                i as int,
                FmState {
                    title: opt_chars(title),
                    subtitle: opt_chars(subtitle),
                    genre: opt_chars(genre),
                    tags: tags@.map_values(|s: String| s@),
                    published_at: opt_chars(published_at),
                    updated_at: opt_chars(updated_at),
                    meta: meta_view(meta@),
                    body: body@.map_values(|l: Vec<char>| l@),
                },
            ),
        decreases n - i,
    {
        let ghost st_pre = FmState {
            title: opt_chars(title),
            subtitle: opt_chars(subtitle),
            genre: opt_chars(genre),
            tags: tags@.map_values(|s: String| s@),
            published_at: opt_chars(published_at),
            updated_at: opt_chars(updated_at),
            meta: meta_view(meta@),
            body: body@.map_values(|l: Vec<char>| l@),
        };
        let line = &lines[i];
        let ghost l = lv[i as int];
        assert(line@ == l);
        match take_prefix(line, "//:") {
            None => {
                let seg = chars_from(line, 0);
                proof {
                    assert(seg@ =~= l);
                }
                body.push(seg);
                proof {
                    assert(body@.map_values(|x: Vec<char>| x@) =~= st_pre.body.push(l));
                }
            },
            Some(rest0) => {
                let t = trim_chars(&rest0);
                if let Some(v) = take_directive(&t, "title:") {
                    title = Some(v);
                } else if let Some(v) = take_directive(&t, "subtitle:") {
                    subtitle = Some(v);
                } else if let Some(v) = take_directive(&t, "genre:") {
                    genre = Some(v);
                } else if let Some(v) = take_prefix(&t, "tags:") {
                    tags = parse_tags(&v);
                } else if let Some(v) = take_directive(&t, "date:") {
                    published_at = Some(v);
                } else if let Some(v) = take_directive(&t, "updated:") {
                    updated_at = Some(v);
                } else if let Some(v) = take_prefix(&t, "meta>") {
                    match index_of_char(&v, ':', 0) {
                        Some(ci) => {
                            let k = trim_chars(&chars_range(&v, 0, ci));
                            let val = trim_chars(&chars_from(&v, ci + 1));
                            if k.len() > 0 && val.len() > 0 {
                                meta_insert(
                                    &mut meta,
                                    string_from_chars(&k),
                                    string_from_chars(&val),
                                );
                            }
                        },
                        None => {
                            let seg = chars_from(line, 0);
                            proof {
                                assert(seg@ =~= l);
                            }
                            body.push(seg);
                            proof {
                                assert(body@.map_values(|x: Vec<char>| x@) =~= st_pre.body.push(
                                    l,
                                ));
                            }
                        },
                    }
                } else {
                    let seg = chars_from(line, 0);
                    proof {
                        assert(seg@ =~= l);
                    }
                    body.push(seg);
                    proof {
                        assert(body@.map_values(|x: Vec<char>| x@) =~= st_pre.body.push(l));
                    }
                }
            },
        }
        proof {
            let st_post = FmState {
                title: opt_chars(title),
                subtitle: opt_chars(subtitle),
                genre: opt_chars(genre),
                tags: tags@.map_values(|s: String| s@),
                published_at: opt_chars(published_at),
                updated_at: opt_chars(updated_at),
                meta: meta_view(meta@),
                body: body@.map_values(|l2: Vec<char>| l2@),
            };
            assert(st_post == fm_step(st_pre, l));
        }
        i = i + 1;
    }

    // The site-wide defaults, in the order the finalize step applies them.
    if let Some(t) = &title {
        let ts = string_from_chars(t);
        meta_put_default(&mut meta, String::from_str("title"), ts.clone());
        meta_put_default(&mut meta, String::from_str("og:title"), ts);
    }
    meta_put_default(&mut meta, String::from_str("author"), String::from_str("すずねーう"));
    meta_put_default(
        &mut meta,
        String::from_str("link:author"),
        String::from_str("https://twitter.com/suzuneu_discord"),
    );
    meta_put_default(
        &mut meta,
        String::from_str("referrer"),
        String::from_str("strict-origin-when-cross-origin"),
    );
    meta_put_default(
        &mut meta,
        String::from_str("og:site_name"),
        String::from_str("すずねーうのウェブサイト"),
    );
    meta_put_default(&mut meta, String::from_str("og:locale"), String::from_str("ja_JP"));
    meta_put_default(&mut meta, String::from_str("og:type"), String::from_str("article"));
    let have_time = crate::frontmatter::meta_get(&meta, "article:published_time").is_some();
    if !have_time {
        if let Some(d) = &published_at {
            let ghost before = meta_view(meta@);
            let mut derived = chars_from(d, 0);
            proof {
                assert(derived@ =~= d@);
            }
            if index_of_char(&derived, 'T', 0).is_none() {
                let mut suffix = crate::text::chars_of("T00:00:00.000Z");
                derived.append(&mut suffix);
            }
            assert(derived@ =~= widen_date(d@));
            meta.push(
                (String::from_str("article:published_time"), string_from_chars(&derived)),
            );
            proof {
                assert(meta_view(meta@) =~= before.push(
                    ("article:published_time"@, widen_date(d@)),
                ));
            }
        }
    }

    let fm = FrontMatter {
        title: opt_chars_to_string(&title),
        subtitle: opt_chars_to_string(&subtitle),
        genre: opt_chars_to_string(&genre),
        tags,
        breadcrumbs: Vec::new(),
        published_at: opt_chars_to_string(&published_at),
        updated_at: opt_chars_to_string(&updated_at),
        slug: slug.to_owned(),
        html: String::new(),
        meta,
        markdown: None,
        reading_minutes: None,
    };
    let body_chars = join_lines(&body);
    let body_string = string_from_chars(&body_chars);
    (fm, body_string)
}

} // verus!
