use serpeo::html_parser::page_parser::{normalize_url, LinkType, PageParser, PageParserError};
use serpeo::seo_plugins::utils::link_parser::to_url;

#[test]
fn page_parser_test_extract_meta_tags() {
    let html = r#"
                <html>
                    <head>
                        <title>Test Page</title>
                        <meta name="description" content="This is a test description">
                        <meta name="robots" content="index, follow">
                        <meta property="og:title" content="Test OG Title">
                        <meta property="twitter:card" content="summary">
                        <link rel="sitemap" href="https://example.com/sitemap.xml">
                    </head>
                </html>
            "#;
    let mut parser = PageParser::from_url(to_url("https://example.com").unwrap());
    parser.set_content(html.to_string());

    let meta_tags = parser.extract_meta_tags();

    assert_eq!(meta_tags.title, Some("Test Page".to_string()));
    assert_eq!(meta_tags.description, Some("This is a test description".to_string()));
    assert_eq!(meta_tags.robots, Some("index, follow".to_string()));
    assert_eq!(meta_tags.og_tags.get("title"), Some(&"Test OG Title".to_string()));
    assert_eq!(meta_tags.twitter_tags.get("card"), Some(&"summary".to_string()));
    assert_eq!(meta_tags.sitemap, Some("https://example.com/sitemap.xml".to_string()));
}

#[test]
fn page_parser_test_extract_links() {
    let html = r#"
                <html>
                    <body>
                        <a href="/internal-link">Internal Link</a>
                        <a href="https://external.com">External Link</a>
                    </body>
                </html>
            "#;

    let mut parser = PageParser::from_url(to_url("https://example.com").unwrap());
    parser.set_content(html.to_string());

    let links = parser.extract_links();

    assert_eq!(links.len(), 2);
    assert_eq!(links[0].href, "https://example.com/internal-link");
    assert_eq!(links[0].link_type, LinkType::Internal);
    assert_eq!(links[1].href, "https://external.com/");
    assert_eq!(links[1].link_type, LinkType::External);
}

#[test]
fn page_parser_test_extract_headings() {
    let html = r#"
                <html>
                    <body>
                        <h1>Main Heading</h1>
                        <h2>Subheading</h2>
                        <h3>Another Subheading</h3>
                    </body>
                </html>
            "#;
    let mut parser = PageParser::from_url(to_url("https://example.com").unwrap());
    parser.set_content(html.to_string());

    let headings = parser.extract_headings();

    assert_eq!(headings.len(), 3);
    assert_eq!(headings[0].tag, "h1");
    assert_eq!(headings[0].text, "Main Heading");
    assert_eq!(headings[1].tag, "h2");
    assert_eq!(headings[1].text, "Subheading");
    assert_eq!(headings[2].tag, "h3");
    assert_eq!(headings[2].text, "Another Subheading");
}

#[test]
fn page_parser_new_and_base() {
    let parser = PageParser::new("https://example.com/docs/").unwrap();
    assert_eq!(parser.get_href(), "https://example.com/docs");
    assert_eq!(parser.get_path(), "/docs/");
    let base = parser.extract_base();
    assert_eq!(base.base_url, "https://example.com/docs/");
    assert_eq!(base.path, "/docs/");
    assert!(matches!(PageParser::new("nope"), Err(PageParserError::UrlParseError(_))));
}

#[test]
fn normalize_url_trims_every_trailing_slash() {
    assert_eq!(normalize_url("https://example.com///"), "https://example.com");
    assert_eq!(normalize_url("https://example.com/a"), "https://example.com/a");
}

#[test]
fn page_parser_analyze_page_collects_everything() {
    let mut parser = PageParser::from_url(to_url("https://example.com/a").unwrap());
    parser.set_content(r#"<html><head><title>T</title></head><body><h2>x</h2><img src="i.png"><a href="b">b</a></body></html>"#.to_string());
    let analysis = parser.analyze_page().unwrap();
    assert_eq!(analysis.meta_tags.title, Some("T".to_string()));
    assert_eq!(analysis.headings.len(), 1);
    assert_eq!(analysis.images.len(), 1);
    assert_eq!(analysis.links.len(), 1);
    assert_eq!(analysis.links[0].href, "https://example.com/b");
    assert_eq!(analysis.links[0].path, "/b");
    assert_eq!(analysis.base_info.path, "/a");
    assert!(parser.links_classifiable());
}
