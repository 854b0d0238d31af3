use serpeo::seo_plugins::utils::link_parser::{to_url, LinkType};
use serpeo::seo_plugins::utils::page::{check_page_queries, Page, PageError, FALLBACK_URL};

#[test]
fn test_document_extract_links_no_base_url() {
    let page = Page::from_html(
        r#"
            <html>
                <body>
                    <a href="/test">Test</a>
                    <a href="https://cool-site.com/test">Test</a>
                </body>
            </html>
            "#
        .to_string(),
    );
    let links = page.extract_links().unwrap();
    assert_eq!(links.len(), 2);
    assert_eq!(links[0].href, format!("{}/test", FALLBACK_URL));
    assert_eq!(links[0].path, "/test");
    assert_eq!(links[0].link_type, LinkType::Internal);
    assert_eq!(links[1].href, "https://cool-site.com/test");
    assert_eq!(links[1].path, "/test");
    assert_eq!(links[1].link_type, LinkType::External);
}

#[test]
fn test_document_extract_links_with_base_url() {
    let mut page = Page::from_html(
        r#"
            <html>
                <body>
                    <a href="/test">Test</a>    
                    <a href="https://cool-site.com/test">Test</a>
                </body>
            </html>
            "#
        .to_string(),
    );
    const TEST_URL: &str = "https://sample.com";
    page.set_url(to_url(TEST_URL).unwrap());
    let links = page.extract_links().unwrap();
    assert_eq!(links.len(), 2);
    assert_eq!(links[0].href, format!("{}/test", TEST_URL));
    assert_eq!(links[0].path, "/test");
    assert_eq!(links[0].link_type, LinkType::Internal);
    assert_eq!(links[1].href, "https://cool-site.com/test");
    assert_eq!(links[1].path, "/test");
    assert_eq!(links[1].link_type, LinkType::External);
}

#[test]
fn page_test_extract_meta_tags() {
    let html = r#"
                <html>
                    <head>
                        <title>Test Page</title>
                        <meta name="description" content="This is a test description">
                        <meta name="robots" content="index, follow">
                        <meta property="og:title" content="Test OG Title">
                        <meta property="twitter:card" content="summary">
                        <link rel="sitemap" href="https://example.com/sitemap.xml">
                    </head>
                </html>
            "#;

    let parser = Page::from_html(html.to_string());
    let meta_tags = parser.extract_meta_tags();

    assert_eq!(meta_tags.title, Some("Test Page".to_string()));
    assert_eq!(meta_tags.description, Some("This is a test description".to_string()));
    assert_eq!(meta_tags.robots, Some("index, follow".to_string()));
    assert_eq!(meta_tags.og_tags.get("title"), Some(&"Test OG Title".to_string()));
    assert_eq!(meta_tags.twitter_tags.get("card"), Some(&"summary".to_string()));
    assert_eq!(meta_tags.sitemap, Some("https://example.com/sitemap.xml".to_string()));
}

#[test]
fn page_test_extract_links() {
    let html = r#"
                <html>
                    <body>
                        <a href="/internal-link">Internal Link</a>
                        <a href="https://external.com">External Link</a>
                    </body>
                </html>
            "#;

    let mut parser = Page::from_html(html.to_string());
    parser.set_url(to_url("https://example.com").unwrap());

    let links = parser.extract_links().unwrap();

    assert_eq!(links.len(), 2);
    assert_eq!(links[0].href, "https://example.com/internal-link");
    assert_eq!(links[0].link_type, LinkType::Internal);
    assert_eq!(links[1].href, "https://external.com/");
    assert_eq!(links[1].link_type, LinkType::External);
}

#[test]
fn page_test_extract_headings() {
    let html = r#"
                <html>
                    <body>
                        <h1>Main Heading</h1>
                        <h2>Subheading</h2>
                        <h3>Another Subheading</h3>
                    </body>
                </html>
            "#;

    let mut parser = Page::from_html(html.to_string());
    parser.set_url(to_url("https://example.com").unwrap());

    let headings = parser.extract_headings();

    assert_eq!(headings.len(), 3);
    assert_eq!(headings[0].tag, "h1");
    assert_eq!(headings[0].text, "Main Heading");
    assert_eq!(headings[1].tag, "h2");
    assert_eq!(headings[1].text, "Subheading");
    assert_eq!(headings[2].tag, "h3");
    assert_eq!(headings[2].text, "Another Subheading");
}

#[test]
fn page_queries_are_accepted() {
    assert!(check_page_queries().is_ok());
}

#[test]
fn page_without_url_uses_fallback() {
    let page = Page::from_html(String::new());
    assert_eq!(page.get_url().as_str(), "https://example.com/");
}

#[test]
fn page_redirect_status_is_detected() {
    let page = Page::from_fetch(to_url("https://example.com").unwrap(), String::new(), Some(10), 301);
    assert!(page.get_redirected());
    assert_eq!(page.get_status_code(), Some(301));
    assert_eq!(page.get_content_length(), Some(10));
    let page = Page::from_fetch(to_url("https://example.com").unwrap(), String::new(), None, 0);
    assert!(!page.get_redirected());
    assert_eq!(page.get_status_code(), None);
}

#[test]
fn page_images_and_missing_elements() {
    let page = Page::from_html(r#"<html><body><img src="a.png" alt="A"><img srcset="b 2x"></body></html>"#.to_string());
    let images = page.extract_images();
    assert_eq!(images.len(), 2);
    assert_eq!(images[0].src, "a.png");
    assert_eq!(images[0].alt, Some("A".to_string()));
    assert_eq!(images[1].src, "");
    assert_eq!(images[1].srcset, Some("b 2x".to_string()));
    assert!(matches!(page.get_element("video"), Err(PageError::ElementNotFound)));
    assert!(matches!(page.get_element("[["), Err(PageError::SelectorParseError(_))));
}

#[test]
fn page_link_that_cannot_resolve_is_an_error() {
    let page = Page::from_html(r#"<html><body><a href="http://[broken">x</a></body></html>"#.to_string());
    assert!(matches!(page.extract_links(), Err(PageError::LinkParseError(_))));
}
