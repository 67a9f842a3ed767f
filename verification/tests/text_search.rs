use rodin::search::{build_snippet, find_subsequence, query, SearchQuery};
use rodin::state::make_search_entry;
use rodin::frontmatter::FrontMatter;
use rodin::text::{chars_of, html_to_plain, trim_chars};

fn to_string(v: Vec<char>) -> String {
    v.into_iter().collect()
}

fn meta(slug: &str, title: Option<&str>) -> FrontMatter {
    FrontMatter {
        title: title.map(|t| t.to_string()),
        subtitle: None,
        genre: None,
        tags: Vec::new(),
        breadcrumbs: Vec::new(),
        published_at: Some("2024-01-01".to_string()),
        updated_at: None,
        slug: slug.to_string(),
        html: String::new(),
        meta: Vec::new(),
        markdown: None,
        reading_minutes: None,
    }
}

#[test]
fn plain_text_strips_tags_and_collapses_whitespace() {
    let plain = to_string(html_to_plain("<p>Hello  <b>world</b>\n</p>"));
    assert_eq!(plain, "Hello world");
}

#[test]
fn plain_text_keeps_unclosed_and_empty_angle_brackets() {
    assert_eq!(to_string(html_to_plain("a <b")), "a <b");
    assert_eq!(to_string(html_to_plain("a<>b")), "a<>b");
    assert_eq!(to_string(html_to_plain("a<x<y>b")), "a b");
}

#[test]
fn trim_chars_removes_edges_only() {
    let t = to_string(trim_chars(&chars_of("  a b \t\n")));
    assert_eq!(t, "a b");
}

#[test]
fn find_subsequence_first_occurrence() {
    let hay = chars_of("abcabc");
    assert_eq!(find_subsequence(&hay, &chars_of("bc")), Some(1));
    assert_eq!(find_subsequence(&hay, &chars_of("cb")), None);
    assert_eq!(find_subsequence(&hay, &chars_of("")), None);
}

#[test]
fn snippet_window_respects_bounds() {
    // 50 characters of context, the match, then a long tail.
    let body: String = format!("{}hello world this is a test{}", "x".repeat(50), "y".repeat(200));
    let body_chars = chars_of(&body);
    let body_lower = body_chars.clone();
    let q = chars_of("world");
    let snippet = build_snippet(&body_chars, &body_lower, &q);
    // Match starts at 56: window is [16, 181), then an ellipsis.
    assert_eq!(snippet.len(), 166);
    assert_eq!(snippet[0], 'x');
    assert_eq!(*snippet.last().unwrap(), '\u{2026}');
    assert!(to_string(snippet).contains("world"));
}

#[test]
fn snippet_never_splits_multibyte_characters() {
    let body: String = format!("{}world{}", "\u{3042}".repeat(50), "\u{3044}".repeat(200));
    let body_chars = chars_of(&body);
    let body_lower = body_chars.clone();
    let q = chars_of("world");
    let snippet = build_snippet(&body_chars, &body_lower, &q);
    // Window is [10, 175) in characters, then an ellipsis.
    assert_eq!(snippet.len(), 166);
    assert_eq!(snippet[0], '\u{3042}');
    let s = to_string(snippet);
    assert!(s.contains("world"));
    assert!(s.contains('\u{3042}'));
    assert!(s.contains('\u{3044}'));
}

#[test]
fn snippet_falls_back_to_head_when_query_absent() {
    let body: String = "z".repeat(300);
    let body_chars = chars_of(&body);
    let body_lower = body_chars.clone();
    let q = chars_of("missing");
    let snippet = build_snippet(&body_chars, &body_lower, &q);
    assert_eq!(snippet.len(), 161);
    assert_eq!(*snippet.last().unwrap(), '\u{2026}');
}

#[test]
fn query_caps_hits_at_thirty_in_order() {
    let mut entries = Vec::new();
    for i in 0..40 {
        let m = meta(&format!("p{}", i), Some(&format!("Post {}", i)));
        let body = "<p>the quick brown fox</p>".to_string();
        entries.push(make_search_entry(&m, &body));
    }
    let hits = query(&entries, "quick");
    assert_eq!(hits.len(), 30);
    for (k, hit) in hits.iter().enumerate() {
        assert_eq!(hit.slug, format!("p{}", k));
    }
}

#[test]
fn query_blank_returns_nothing() {
    let m = meta("a", Some("Anything"));
    let entries = vec![make_search_entry(&m, &"<p>anything</p>".to_string())];
    assert_eq!(query(&entries, "").len(), 0);
    assert_eq!(query(&entries, "   ").len(), 0);
}

#[test]
fn query_is_case_insensitive() {
    let m = meta("a", Some("Hello World"));
    let entries = vec![make_search_entry(&m, &"<p>Nothing relevant</p>".to_string())];
    let hits = query(&entries, "WORLD");
    assert_eq!(hits.len(), 1);
    assert_eq!(hits[0].title, "Hello World");
}

#[test]
fn query_trims_before_matching() {
    let m = meta("a", Some("rust notes"));
    let entries = vec![make_search_entry(&m, &"<p>body</p>".to_string())];
    let hits = query(&entries, "  rust  ");
    assert_eq!(hits.len(), 1);
}

#[test]
fn query_snippet_comes_from_body_text() {
    let m = meta("a", Some("title without match"));
    let body = format!("<p>{}hello world this is a test</p>", "pad ".repeat(20));
    let entries = vec![make_search_entry(&m, &body)];
    let hits = query(&entries, "world");
    assert_eq!(hits.len(), 1);
    assert!(hits[0].snippet.contains("world"));
}

#[test]
fn untitled_pages_match_under_default_title() {
    let m = meta("a", None);
    let entries = vec![make_search_entry(&m, &"<p>body text</p>".to_string())];
    assert_eq!(entries[0].title, "Untitled");
    // The default title is not case-folded into the match text.
    assert_eq!(query(&entries, "untitled").len(), 0);
    assert_eq!(query(&entries, "body").len(), 1);
}

#[test]
fn search_query_text_defaults_to_empty() {
    let none = SearchQuery { q: None };
    assert_eq!(none.text(), "");
    let some = SearchQuery { q: Some("abc".to_string()) };
    assert_eq!(some.text(), "abc");
}

#[test]
fn plain_text_collapses_unicode_whitespace() {
    // Ideographic space, no-break space, and en quad all separate words.
    assert_eq!(to_string(html_to_plain("a\u{3000}b")), "a b");
    assert_eq!(to_string(html_to_plain("a\u{00A0}\u{2002}b")), "a b");
    assert_eq!(to_string(html_to_plain("\u{3000}a\u{3000}")), "a");
}

#[test]
fn trim_chars_removes_unicode_whitespace() {
    assert_eq!(to_string(trim_chars(&chars_of("\u{3000} x \u{00A0}"))), "x");
}

#[test]
fn query_of_only_unicode_whitespace_is_blank() {
    let m = meta("a", Some("anything"));
    let entries = vec![make_search_entry(&m, &"<p>anything</p>".to_string())];
    assert_eq!(query(&entries, "\u{3000}\u{3000}").len(), 0);
    assert_eq!(query(&entries, "\u{00A0}").len(), 0);
}
