use serpeo::seo_plugins::utils::link_parser::to_url;
use serpeo::seo_plugins::utils::page::Page;
use serpeo::seo_plugins::utils::sitemap_parser::{parse_sitemap_urls, SitemapParser, SitemapParserError};

const INDEX: &str = r#"<?xml version="1.0" encoding="UTF-8"?>
<sitemapindex xmlns="http://www.sitemaps.org/schemas/sitemap/0.9">
<sitemap><loc>https://example.com/post-sitemap.xml</loc></sitemap>
<sitemap><loc>https://example.com/page-sitemap.xml</loc></sitemap>
</sitemapindex>"#;

const POSTS: &str = r#"<?xml version="1.0" encoding="UTF-8"?>
<urlset xmlns="http://www.sitemaps.org/schemas/sitemap/0.9">
<url><loc>https://example.com/post1</loc></url>
<url><loc>https://example.com/post2</loc></url>
<url><loc>https://example.com/post1</loc></url>
</urlset>"#;

#[test]
fn sitemap_urls_are_the_locs() {
    assert_eq!(parse_sitemap_urls(POSTS), vec!["https://example.com/post1", "https://example.com/post2"]);
    assert!(parse_sitemap_urls("404").is_empty());
    assert!(parse_sitemap_urls("<urlset><url><loc></loc></url></urlset>").is_empty());
}

#[test]
fn sitemap_fallback_places_and_index() {
    let mut parser = SitemapParser::new("https://example.com").unwrap();
    parser.seed_sitemaps(None).unwrap();
    assert_eq!(
        parser.pending_sitemaps(),
        vec![
            "https://example.com/sitemap.xml",
            "https://example.com/sitemap_index.xml",
            "https://example.com/sitemap-index.xml",
            "https://example.com/sitemap/sitemap.xml",
        ]
    );
    parser.record_sitemap("https://example.com/sitemap.xml", "404");
    parser.record_sitemap("https://example.com/sitemap_index.xml", INDEX);
    parser.record_sitemap("https://example.com/sitemap-index.xml", "404");
    parser.record_sitemap("https://example.com/sitemap/sitemap.xml", "404");
    assert_eq!(
        parser.pending_sitemaps(),
        vec!["https://example.com/post-sitemap.xml", "https://example.com/page-sitemap.xml"]
    );
    parser.record_sitemap("https://example.com/post-sitemap.xml", POSTS);
    parser.record_sitemap("https://example.com/page-sitemap.xml", "<urlset><url><loc>https://example.com/post2</loc></url></urlset>");
    assert!(parser.pending_sitemaps().is_empty());
    assert_eq!(
        parser.get_sitemap(),
        vec![
            "https://example.com/post-sitemap.xml",
            "https://example.com/page-sitemap.xml",
            "https://example.com/post1",
            "https://example.com/post2",
        ]
    );
}

#[test]
fn sitemap_discovered_from_page() {
    let page = Page::from_html(r#"<html><head><link rel="sitemap" href="/maps/site.xml"></head></html>"#.to_string());
    let found = SitemapParser::discover_sitemap_url(&page);
    assert_eq!(found, Some("/maps/site.xml".to_string()));
    let mut parser = SitemapParser::new("https://example.com/blog/").unwrap();
    parser.seed_sitemaps(found).unwrap();
    assert_eq!(parser.pending_sitemaps(), vec!["https://example.com/maps/site.xml"]);
}

#[test]
fn sitemap_parser_errors() {
    assert!(matches!(SitemapParser::new("::"), Err(SitemapParserError::UrlParseError(_))));
    let mut parser = SitemapParser::new("https://example.com").unwrap();
    assert!(matches!(parser.seed_sitemaps(Some("http://[x".to_string())), Err(SitemapParserError::UrlParseError(_))));
    assert!(parser.pending_sitemaps().is_empty());
}

const BASE: &str = "http://127.0.0.1:4321";

const PAGE_HEAD: &str = r#"
    <!DOCTYPE html>
    <html>
        <head>
            <meta charset="utf-8">
            <title>Test Page</title>
            <meta name="description" content="Test description">
"#;

const PAGE_REST: &str = r#"
        </head>
        <body>
            <a href="/page1">Page 1</a>
            <a href="/page2">Page 2</a>
            <a href="/page1?param=value">Page 1 with params</a>
            <a href="/page1#section">Page 1 with hash</a>
            <a href="/page1?param=value#section">Page 1 with both</a>
            <a href="https://external.com">External</a>
        </body>
    </html>
"#;

fn urlset(base: &str, path: &str) -> String {
    format!(
        r#"<?xml version="1.0" encoding="UTF-8"?>
        <urlset xmlns="http://www.sitemaps.org/schemas/sitemap/0.9" xmlns:news="http://www.google.com/schemas/sitemap-news/0.9" xmlns:xhtml="http://www.w3.org/1999/xhtml" xmlns:image="http://www.google.com/schemas/sitemap-image/1.1" xmlns:video="http://www.google.com/schemas/sitemap-video/1.1">
        <url><loc>{}{}</loc></url>
        </urlset>"#,
        base, path
    )
}

fn sitemap_index(base: &str, path: &str) -> String {
    format!(
        r#"<?xml version="1.0" encoding="UTF-8"?>
        <sitemapindex xmlns="http://www.sitemaps.org/schemas/sitemap/0.9">
            <sitemap><loc>{}{}</loc></sitemap>
        </sitemapindex>"#,
        base, path
    )
}

/// What a site with sitemaps in the usual places answers for `path`.
fn sitemap_site(base: &str, path: &str) -> String {
    match path {
        "/" => format!("{}{}", PAGE_HEAD, PAGE_REST),
        "/other-path" => format!(
            r#"{}<link rel="canonical" href="{}/success">
            <link rel="sitemap" href="{}/defined.xml">{}"#,
            PAGE_HEAD, base, base, PAGE_REST
        ),
        "/relative-sitemap" => format!(
            r#"{}<link rel="canonical" href="{}/success">
            <link rel="sitemap" href="/relative-sitemap.xml">{}"#,
            PAGE_HEAD, base, PAGE_REST
        ),
        "/sitemap_index.xml" => sitemap_index(base, "/sitemap-0.xml"),
        "/sitemap-index.xml" => sitemap_index(base, "/sitemap-1.xml"),
        "/relative-sitemap.xml" => sitemap_index(base, "/sitemap-1.xml"),
        "/sitemap-0.xml" => urlset(base, "/index-0"),
        "/sitemap-1.xml" => urlset(base, "/index-1"),
        "/sitemap.xml" => urlset(base, "/base"),
        "/defined.xml" => urlset(base, "/defined"),
        _ => "404".to_string(),
    }
}

/// What a site without sitemaps answers for `path`.
fn empty_site(base: &str, path: &str) -> String {
    match path {
        "/" => format!("{}{}", PAGE_HEAD, PAGE_REST),
        "/other-path" => format!(
            r#"{}<link rel="canonical" href="{}/success">
            <link rel="sitemap" href="{}/defined.xml">{}"#,
            PAGE_HEAD, base, base, PAGE_REST
        ),
        _ => "404".to_string(),
    }
}

/// Reads the sitemaps of the site at `start`, answering each request from `site`.
fn read_sitemaps(start: &str, site: fn(&str, &str) -> String) -> Vec<String> {
    let path = |url: &str| {
        let rest = &url[BASE.len()..];
        if rest.is_empty() { "/".to_string() } else { rest.to_string() }
    };
    let mut parser = SitemapParser::new(start).unwrap();
    let page = Page::from_fetch(to_url(start).unwrap(), site(BASE, &path(start)), None, 200);
    parser.seed_sitemaps(SitemapParser::discover_sitemap_url(&page)).unwrap();
    loop {
        let pending = parser.pending_sitemaps();
        if pending.is_empty() {
            break;
        }
        for url in pending {
            let text = site(BASE, &path(&url));
            parser.record_sitemap(&url, &text);
        }
    }
    parser.get_sitemap()
}

#[test]
fn test_basic_sitemap_parse() {
    let sitemap_urls = read_sitemaps(BASE, sitemap_site);
    assert!(!sitemap_urls.is_empty());
    for path in &["/base", "/index-0", "/index-1"] {
        let url = format!("{}{}", BASE, path);
        assert!(sitemap_urls.contains(&url), "Sitemap URL not found: {}", url);
    }
}

#[test]
fn test_basic_sitemap_on_other_path() {
    let sitemap_urls = read_sitemaps(&format!("{}/other-path", BASE), sitemap_site);
    assert!(!sitemap_urls.is_empty());
    let url = format!("{}{}", BASE, "/defined");
    assert!(sitemap_urls.contains(&url), "Sitemap URL not found: {}", url);
}

#[test]
fn test_empty_sitemap_server() {
    let sitemap_urls = read_sitemaps(BASE, empty_site);
    assert!(sitemap_urls.is_empty());
}

#[test]
fn test_relative_sitemap_parse() {
    let sitemap_urls = read_sitemaps(&format!("{}/relative-sitemap", BASE), sitemap_site);
    assert!(!sitemap_urls.is_empty());
    assert!(sitemap_urls.contains(&format!("{}/index-1", BASE)));
}
