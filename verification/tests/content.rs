use rodin::cards::build_cards_html;
use rodin::frontmatter::{meta_get, FrontMatter};
use rodin::posts::{
    estimate_reading_minutes, maybe_minify_html, parse_front_matter, strip_preamble_import,
};
use rodin::sitemap::{latest_lastmod, render_xml, sitemap_urls, SitemapEntry};

fn get<'a>(meta: &'a Vec<(String, String)>, key: &str) -> Option<&'a str> {
    meta_get(meta, key).map(|s| s.as_str())
}

#[test]
fn front_matter_fields_and_body() {
    let source = "\
//: title: My Post
//: subtitle: Sub
//: tags: rust, verus ,
//: date: 2024-01-02
//: updated: 2024-02-03T10:00:00Z
//: meta> description: A post
//: unknown line
Body line one
Body line two";
    let (fm, body) = parse_front_matter("my-post", source);
    assert_eq!(fm.slug, "my-post");
    assert_eq!(fm.title.as_deref(), Some("My Post"));
    assert_eq!(fm.subtitle.as_deref(), Some("Sub"));
    assert_eq!(fm.tags, vec!["rust".to_string(), "verus".to_string()]);
    assert_eq!(fm.published_at.as_deref(), Some("2024-01-02"));
    assert_eq!(fm.updated_at.as_deref(), Some("2024-02-03T10:00:00Z"));
    assert_eq!(fm.html, "");
    assert!(fm.markdown.is_none());
    assert!(fm.reading_minutes.is_none());
    assert_eq!(body, "//: unknown line\nBody line one\nBody line two");
    assert_eq!(get(&fm.meta, "description"), Some("A post"));
}

#[test]
fn front_matter_site_defaults() {
    let (fm, _) = parse_front_matter("s", "//: title: T\n//: date: 2024-01-02\nbody");
    assert_eq!(get(&fm.meta, "title"), Some("T"));
    assert_eq!(get(&fm.meta, "og:title"), Some("T"));
    assert_eq!(get(&fm.meta, "author"), Some("すずねーう"));
    assert_eq!(
        get(&fm.meta, "link:author"),
        Some("https://twitter.com/suzuneu_discord")
    );
    assert_eq!(get(&fm.meta, "referrer"), Some("strict-origin-when-cross-origin"));
    assert_eq!(get(&fm.meta, "og:site_name"), Some("すずねーうのウェブサイト"));
    assert_eq!(get(&fm.meta, "og:locale"), Some("ja_JP"));
    assert_eq!(get(&fm.meta, "og:type"), Some("article"));
    assert_eq!(
        get(&fm.meta, "article:published_time"),
        Some("2024-01-02T00:00:00.000Z")
    );
}

#[test]
fn front_matter_keeps_explicit_meta_over_defaults() {
    let source = "//: title: T\n//: meta> author: someone\n//: date: 2024-01-02";
    let (fm, _) = parse_front_matter("s", source);
    assert_eq!(get(&fm.meta, "author"), Some("someone"));
    assert_eq!(get(&fm.meta, "og:title"), Some("T"));
}

#[test]
fn front_matter_meta_splits_at_first_colon() {
    let (fm, _) = parse_front_matter("s", "//: meta> og:custom: value");
    assert_eq!(get(&fm.meta, "og"), Some("custom: value"));
    assert_eq!(get(&fm.meta, "og:custom"), None);
}

#[test]
fn front_matter_timestamp_not_widened_when_time_present() {
    let (fm, _) = parse_front_matter("s", "//: date: 2024-01-02T09:30:00Z");
    assert_eq!(
        get(&fm.meta, "article:published_time"),
        Some("2024-01-02T09:30:00Z")
    );
}

#[test]
fn front_matter_meta_without_colon_is_body() {
    let (fm, body) = parse_front_matter("s", "//: meta> nocolonhere\nreal body");
    assert!(fm.meta.iter().all(|(k, _)| k != "nocolonhere"));
    assert_eq!(body, "//: meta> nocolonhere\nreal body");
}

#[test]
fn front_matter_handles_crlf() {
    let (fm, body) = parse_front_matter("s", "//: title: T\r\nline\r\n");
    assert_eq!(fm.title.as_deref(), Some("T"));
    assert_eq!(body, "line");
}

#[test]
fn preamble_import_lines_are_dropped() {
    let source = "#import \"preamble.typ\": *\n= Heading\n  #import \"preamble.typ\"\ntext";
    assert_eq!(strip_preamble_import(source), "= Heading\ntext");
}

#[test]
fn preamble_other_imports_stay() {
    let source = "#import \"other.typ\": *\ntext";
    assert_eq!(strip_preamble_import(source), source);
}

#[test]
fn reading_minutes_rounds_up_with_floor_one() {
    assert_eq!(estimate_reading_minutes(""), 1);
    assert_eq!(estimate_reading_minutes(&"a".repeat(500)), 1);
    assert_eq!(estimate_reading_minutes(&format!("<p>{}</p>", "a".repeat(501))), 2);
    // Whitespace and markup do not count.
    assert_eq!(estimate_reading_minutes("<p>   </p>"), 1);
}

#[test]
fn minify_passthrough_when_off() {
    let html = "<p>  Hello, world!  </p>".to_string();
    assert_eq!(maybe_minify_html(html.clone(), false), html);
}

#[test]
fn minify_shrinks_whitespace_when_on() {
    let html = "<p>  Hello, world!  </p>".to_string();
    let min = maybe_minify_html(html.clone(), true);
    assert_ne!(min, html);
    assert!(min.contains("Hello, world!"));
    assert!(min.len() < html.len());
}

fn meta_with_dates(slug: &str, published: Option<&str>, updated: Option<&str>) -> FrontMatter {
    FrontMatter {
        title: Some(slug.to_string()),
        subtitle: None,
        genre: None,
        tags: Vec::new(),
        breadcrumbs: Vec::new(),
        published_at: published.map(|s| s.to_string()),
        updated_at: updated.map(|s| s.to_string()),
        slug: slug.to_string(),
        html: String::new(),
        meta: Vec::new(),
        markdown: None,
        reading_minutes: None,
    }
}

#[test]
fn latest_lastmod_prefers_updated_and_trims() {
    let metas = vec![
        meta_with_dates("a", Some("2023-01-01"), None),
        meta_with_dates("b", Some("2022-01-01"), Some(" 2024-05-01 ")),
        meta_with_dates("c", None, None),
    ];
    assert_eq!(latest_lastmod(&metas).as_deref(), Some("2024-05-01"));
    let empty: Vec<FrontMatter> = Vec::new();
    assert_eq!(latest_lastmod(&empty), None);
    assert_eq!(latest_lastmod(&vec![meta_with_dates("c", None, None)]), None);
}

#[test]
fn sitemap_xml_exact() {
    let urls = vec![
        SitemapEntry {
            loc: "https://e.com/".to_string(),
            lastmod: Some("2024-01-01".to_string()),
        },
        SitemapEntry { loc: "https://e.com/blog/a".to_string(), lastmod: None },
    ];
    let expected = "<?xml version=\"1.0\" encoding=\"UTF-8\"?>\n\
<urlset xmlns=\"http://www.sitemaps.org/schemas/sitemap/0.9\">\n\
\x20 <url>\n\
\x20   <loc>https://e.com/</loc>\n\
\x20   <lastmod>2024-01-01</lastmod>\n\
\x20 </url>\n\
\x20 <url>\n\
\x20   <loc>https://e.com/blog/a</loc>\n\
\x20 </url>\n\
</urlset>\n";
    assert_eq!(render_xml(&urls), expected);
}

#[test]
fn sitemap_urls_layout() {
    let metas = vec![meta_with_dates("a", Some("2024-01-01"), None)];
    let urls = sitemap_urls(&metas, "https://e.com");
    assert_eq!(urls.len(), 3);
    assert_eq!(urls[0].loc, "https://e.com/");
    assert_eq!(urls[0].lastmod.as_deref(), Some("2024-01-01"));
    assert_eq!(urls[1].loc, "https://e.com/profile");
    assert_eq!(urls[2].loc, "https://e.com/blog/a");
    assert_eq!(urls[2].lastmod.as_deref(), Some("2024-01-01"));
}

#[test]
fn cards_render_five_at_most() {
    let mut metas = Vec::new();
    for i in 0..7 {
        let mut m = meta_with_dates(&format!("s{}", i), Some("2024-01-01"), None);
        m.tags = vec!["rust".to_string()];
        m.meta = vec![("description".to_string(), format!("desc {}", i))];
        metas.push(m);
    }
    let html = build_cards_html(&metas);
    assert_eq!(html.matches("<article").count(), 5);
    assert!(html.contains("<a href=\"/blog/s0\""));
    assert!(html.contains("desc 4"));
    assert!(!html.contains("desc 5"));
    assert!(html.contains("#rust"));
    assert!(html.contains("Published: 2024-01-01"));
    // Without an update date the publication date fills the update slot.
    assert!(html.contains("Updated: 2024-01-01"));
}

#[test]
fn cards_untitled_uses_slug() {
    let mut m = meta_with_dates("slug-only", None, None);
    m.title = None;
    let html = build_cards_html(&vec![m]);
    assert!(html.contains(">slug-only</a>"));
}

#[test]
fn finish_post_sets_artifact_and_reading_time() {
    let (fm, _) = parse_front_matter("my-post", "//: title: T\nbody");
    let html = format!("<p>{}</p>", "a".repeat(700));
    let (fm2, out) = rodin::posts::finish_post(fm, html.clone(), false);
    assert_eq!(fm2.html, "generated/my-post.html");
    assert_eq!(fm2.reading_minutes, Some(2));
    assert_eq!(fm2.title.as_deref(), Some("T"));
    assert_eq!(out, html);
}

#[test]
fn posts_list_placeholder_is_filled() {
    let html = "<main><p>POSTS_LIST_PLACEHOLDER</p> and POSTS_LIST_PLACEHOLDER</main>";
    let out = rodin::cards::inject_posts_list(html, "<article>x</article>");
    assert_eq!(out, "<main><article>x</article> and <article>x</article></main>");
}

#[test]
fn reading_minutes_ignore_unicode_whitespace() {
    // 500 text characters plus ideographic spaces stay at one minute.
    let html = format!("{}\u{3000}{}", "a".repeat(250), "b".repeat(250));
    assert_eq!(estimate_reading_minutes(&html), 1);
    assert_eq!(estimate_reading_minutes("\u{3000}\u{00A0}"), 1);
}

#[test]
fn preamble_import_dropped_under_unicode_indent() {
    let source = "\u{3000}#import \"preamble.typ\": *\ntext";
    assert_eq!(strip_preamble_import(source), "text");
}
