use rodin::assets::{asset_url, guess_mime, is_hashed_filename};
use rodin::env::Environment;
use rodin::frontmatter::FrontMatter;
use rodin::nonce::generate_nonce;
use rodin::routes::{
    classify_blog_request, client_ip_choice, lookup_markdown, lookup_raw_source, markdown_enabled,
    BlogRoute,
};
use rodin::state::{
    build_prerendered_state, AppState, BuildError, PageArtifacts, PageFault, PageLoad,
};
use rodin::store::StateStore;
use rodin::trigger::{parse_reload_url, reload_succeeded};

fn meta(slug: &str) -> FrontMatter {
    FrontMatter {
        title: Some(format!("Title {}", slug)),
        subtitle: None,
        genre: None,
        tags: Vec::new(),
        breadcrumbs: Vec::new(),
        published_at: Some("2024-01-01".to_string()),
        updated_at: None,
        slug: slug.to_string(),
        html: format!("generated/{}.html", slug),
        meta: Vec::new(),
        markdown: None,
        reading_minutes: None,
    }
}

fn ok_page(slug: &str) -> PageLoad {
    PageLoad {
        meta: meta(slug),
        artifacts: Ok(PageArtifacts {
            body_html: format!("<p>body of {}</p>", slug),
            prerendered: format!("<html>{}</html>", slug),
            raw_source: Some(format!("= {}", slug)),
            markdown: None,
        }),
    }
}

fn build_ok(pages: Vec<PageLoad>) -> AppState {
    build_prerendered_state(
        &pages,
        "<html>top</html>".to_string(),
        "<html>profile</html>".to_string(),
        "<html>pgp</html>".to_string(),
    )
    .unwrap()
}

#[test]
fn build_assembles_all_pages_in_order() {
    let s = build_ok(vec![ok_page("a"), ok_page("b")]);
    assert_eq!(s.prerender_top, "<html>top</html>");
    assert_eq!(s.pages.len(), 2);
    assert_eq!(s.search_index.len(), 2);
    assert_eq!(s.pages[0].slug, "a");
    assert_eq!(s.pages[1].slug, "b");
    assert_eq!(s.pages[0].prerendered, "<html>a</html>");
    assert_eq!(s.search_index[0].title, "Title a");
    let body: String = s.search_index[0].body_chars.iter().collect();
    assert_eq!(body, "body of a");
    let lc: String = s.search_index[1].body_lc.iter().collect();
    assert_eq!(lc, "body of b");
}

#[test]
fn build_fails_on_missing_artifact() {
    let mut pages = vec![ok_page("a"), ok_page("b")];
    pages[1].artifacts = Err(PageFault::MissingBody);
    let r = build_prerendered_state(
        &pages,
        String::new(),
        String::new(),
        String::new(),
    );
    match r {
        Err(BuildError::PageLoad { index, slug }) => {
            assert_eq!(index, 1);
            assert_eq!(slug, "b");
        }
        other => panic!("expected a page-load error, got {:?}", other.is_ok()),
    }
}

#[test]
fn build_fails_on_render_fault() {
    let mut pages = vec![ok_page("a")];
    pages[0].artifacts = Err(PageFault::Render);
    let r = build_prerendered_state(&pages, String::new(), String::new(), String::new());
    assert!(matches!(r, Err(BuildError::Render { index: 0, .. })));
}

#[test]
fn build_fails_on_empty_or_duplicate_slug() {
    let mut pages = vec![ok_page("")];
    let r = build_prerendered_state(&pages, String::new(), String::new(), String::new());
    assert!(matches!(r, Err(BuildError::EmptySlug { index: 0 })));
    pages = vec![ok_page("a"), ok_page("a")];
    let r = build_prerendered_state(&pages, String::new(), String::new(), String::new());
    assert!(matches!(r, Err(BuildError::DuplicateSlug { index: 1 })));
}

#[test]
fn build_is_deterministic() {
    let s1 = build_ok(vec![ok_page("a"), ok_page("b")]);
    let s2 = build_ok(vec![ok_page("a"), ok_page("b")]);
    assert_eq!(s1.pages.len(), s2.pages.len());
    for k in 0..s1.pages.len() {
        assert_eq!(s1.pages[k].slug, s2.pages[k].slug);
        assert_eq!(s1.pages[k].prerendered, s2.pages[k].prerendered);
        assert_eq!(s1.search_index[k].title_lc, s2.search_index[k].title_lc);
        assert_eq!(s1.search_index[k].body_lc, s2.search_index[k].body_lc);
        assert_eq!(s1.search_index[k].body_chars, s2.search_index[k].body_chars);
    }
}

#[test]
fn failed_reload_leaves_snapshot_untouched() {
    let mut store = StateStore::new(build_ok(vec![ok_page("a")]));
    let gen_before = store.generation;
    let mut pages = vec![ok_page("a")];
    pages[0].artifacts = Err(PageFault::MissingBody);
    let built = build_prerendered_state(&pages, String::new(), String::new(), String::new());
    let r = store.apply_reload(built);
    assert!(r.is_err());
    assert_eq!(store.generation, gen_before);
    let s = store.read();
    assert_eq!(s.pages.len(), 1);
    assert_eq!(s.pages[0].prerendered, "<html>a</html>");
    assert_eq!(s.prerender_top, "<html>top</html>");
}

#[test]
fn successful_reload_replaces_snapshot_whole() {
    let mut store = StateStore::new(build_ok(vec![ok_page("a")]));
    let next = build_ok(vec![ok_page("a"), ok_page("b")]);
    let r = store.apply_reload(Ok(next));
    assert!(r.is_ok());
    assert_eq!(store.generation, 1);
    let s = store.read();
    assert_eq!(s.pages.len(), 2);
    assert_eq!(s.search_index.len(), 2);
}

#[test]
fn repeated_reload_changes_instance_not_content() {
    let mut store = StateStore::new(build_ok(vec![ok_page("a")]));
    store.apply_reload(Ok(build_ok(vec![ok_page("a")]))).unwrap();
    let gen1 = store.generation;
    let first: String = store.read().pages[0].prerendered.clone();
    store.apply_reload(Ok(build_ok(vec![ok_page("a")]))).unwrap();
    assert_ne!(store.generation, gen1);
    assert_eq!(store.read().pages[0].prerendered, first);
    assert_eq!(store.read().pages.len(), 1);
}

#[test]
fn blog_routes_follow_suffixes() {
    assert!(matches!(classify_blog_request("post", false), BlogRoute::Page(s) if s == "post"));
    assert!(
        matches!(classify_blog_request("post.html", false), BlogRoute::Redirect(l) if l == "/blog/post")
    );
    assert!(
        matches!(classify_blog_request("a.html.html", false), BlogRoute::Redirect(l) if l == "/blog/a")
    );
    assert!(matches!(classify_blog_request(".html", false), BlogRoute::NotFound));
    assert!(matches!(classify_blog_request("post.typ", false), BlogRoute::RawTyp(s) if s == "post"));
    assert!(matches!(classify_blog_request("post.md", false), BlogRoute::Markdown(s) if s == "post"));
    assert!(matches!(classify_blog_request("post", true), BlogRoute::RawTyp(s) if s == "post"));
    assert!(matches!(classify_blog_request("post.html", true), BlogRoute::Page(s) if s == "post"));
}

#[test]
fn raw_source_lookup_is_guarded() {
    let s = build_ok(vec![ok_page("a")]);
    assert_eq!(lookup_raw_source(&s, "a").map(|v| v.as_str()), Some("= a"));
    assert_eq!(lookup_raw_source(&s, "missing"), None);
    assert_eq!(lookup_raw_source(&s, "_a"), None);
    assert_eq!(lookup_raw_source(&s, "a/b"), None);
    assert_eq!(lookup_markdown(&s, "a"), None);
}

#[test]
fn markdown_flag_values() {
    for on in ["true", "1", "yes", "on", "TRUE", "True", "ON"] {
        assert!(markdown_enabled(on));
    }
    for off in ["false", "", "0", "off", "Yes"] {
        assert!(!markdown_enabled(off));
    }
}

#[test]
fn environment_from_name() {
    assert_eq!(Environment::from_name("prod"), Environment::Prod);
    assert_eq!(Environment::from_name("PRODUCTION"), Environment::Prod);
    assert_eq!(Environment::from_name("dev"), Environment::Dev);
    assert_eq!(Environment::from_name(""), Environment::Dev);
}

#[test]
fn nonce_is_sixteen_alphanumerics() {
    let n = generate_nonce();
    assert_eq!(n.chars().count(), 16);
    assert!(n.chars().all(|c| c.is_ascii_alphanumeric()));
}

#[test]
fn asset_url_resolves_through_manifest() {
    let manifest = vec![("app.js".to_string(), "app-12345678.js".to_string())];
    assert_eq!(asset_url(&manifest, "app.js"), "app-12345678.js");
    assert_eq!(asset_url(&manifest, "home.js"), "home.js");
}

#[test]
fn hashed_filenames_detected() {
    assert!(is_hashed_filename("app-a1b2c3d4.js"));
    assert!(is_hashed_filename("/assets/build/font.subset-0ae176d131d7.woff2"));
    assert!(!is_hashed_filename("app.js"));
    assert!(!is_hashed_filename("app-xyz.js"));
    assert!(!is_hashed_filename("app-a1b2c3d.js"));
    assert!(!is_hashed_filename("noext-a1b2c3d4"));
}

#[test]
fn mime_types_by_extension() {
    assert_eq!(guess_mime("css"), Some("text/css; charset=utf-8"));
    assert_eq!(guess_mime("CSS"), Some("text/css; charset=utf-8"));
    assert_eq!(guess_mime("woff2"), Some("font/woff2"));
    assert_eq!(guess_mime("typ"), Some("text/vnd.typst; charset=utf-8"));
    assert_eq!(guess_mime("exe"), None);
}

#[test]
fn cache_policy_for_hashed_assets() {
    let p = rodin::assets::cache_policy("/assets/build/app-a1b2c3d4.js", false);
    assert!(p.is_asset);
    assert_eq!(p.cache_control, "public, max-age=31536000, immutable");
    assert!(!p.set_etag);
    assert!(p.set_vary);
    assert_eq!(p.content_type, None);
}

#[test]
fn cache_policy_for_images_and_pages() {
    let img = rodin::assets::cache_policy("/assets/images/photo.png", false);
    assert!(img.is_asset);
    assert_eq!(img.cache_control, "public, max-age=86400, stale-while-revalidate=604800");
    assert!(img.set_etag);
    let other = rodin::assets::cache_policy("/assets/build/app.css", false);
    assert_eq!(other.cache_control, "public, max-age=300, stale-while-revalidate=604800");
    let page = rodin::assets::cache_policy("/blog/a", false);
    assert!(!page.is_asset);
    assert_eq!(page.cache_control, "no-cache, must-revalidate");
    assert!(!page.set_vary);
}

#[test]
fn cache_policy_guesses_missing_content_type() {
    let p = rodin::assets::cache_policy("/assets/build/app.css", true);
    assert_eq!(p.content_type, Some("text/css; charset=utf-8"));
    assert!(p.inline_disposition);
    let f = rodin::assets::cache_policy("/assets/fonts/a.woff2", true);
    assert_eq!(f.content_type, Some("font/woff2"));
    assert!(!f.inline_disposition);
}

#[test]
fn client_ip_requires_trusted_proxy() {
    assert_eq!(client_ip_choice(false, Some("1.2.3.4"), None), None);
    assert_eq!(
        client_ip_choice(true, Some(" 1.2.3.4 "), None).as_deref(),
        Some("1.2.3.4")
    );
    assert_eq!(
        client_ip_choice(true, None, Some("9.9.9.9, 8.8.8.8")).as_deref(),
        Some("9.9.9.9")
    );
    assert_eq!(
        client_ip_choice(true, Some("  "), Some("7.7.7.7")).as_deref(),
        Some("7.7.7.7")
    );
    assert_eq!(client_ip_choice(true, None, Some("  ,x")), None);
    assert_eq!(client_ip_choice(true, None, None), None);
}

#[test]
fn runtime_tokens_replaced_everywhere() {
    let template = "ip=__CLIENT_IP_PLACEHOLDER__ nonce=__CSP_NONCE__ again=__CSP_NONCE__";
    let filled = rodin::render::inject_runtime_tokens(template, "1.2.3.4", "abc");
    assert_eq!(filled, "ip=1.2.3.4 nonce=abc again=abc");
}

#[test]
fn curl_user_agents_detected() {
    assert!(rodin::routes::ua_is_curl("curl/8.0.1"));
    assert!(rodin::routes::ua_is_curl("CURL/7.1"));
    assert!(!rodin::routes::ua_is_curl("Mozilla/5.0"));
}

#[test]
fn empty_manifest_builds_empty_snapshot() {
    let s = build_ok(Vec::new());
    assert_eq!(s.pages.len(), 0);
    assert_eq!(s.search_index.len(), 0);
    assert_eq!(rodin::search::query(&s.search_index, "anything").len(), 0);
    assert_eq!(s.get_page("a"), None);
}

#[test]
fn reload_url_splits_host_and_path() {
    assert_eq!(
        parse_reload_url("http://127.0.0.1:3000/__admin/reload"),
        Some(("127.0.0.1:3000".to_string(), "/__admin/reload".to_string()))
    );
    assert_eq!(
        parse_reload_url("http://localhost"),
        Some(("localhost".to_string(), "/".to_string()))
    );
    assert_eq!(parse_reload_url("https://h/x"), None);
    assert_eq!(parse_reload_url("ftp://h"), None);
}

#[test]
fn reload_status_line_checked_for_200() {
    assert!(reload_succeeded("HTTP/1.1 200 OK"));
    assert!(!reload_succeeded("HTTP/1.1 404 Not Found"));
    assert!(!reload_succeeded("HTTP/1.1 5200x"));
}
