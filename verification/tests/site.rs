use serpeo::seo_plugins::utils::link_parser::{parse_link, to_url};
use serpeo::seo_plugins::utils::site::{LinkSourceType, PageLinkSource, Site, SiteError};

#[test]
fn site_records_links() {
    let mut site = Site::new("https://example.com").unwrap();
    let sitemap = vec!["https://example.com/a".to_string(), "https://example.com/b".to_string()];
    assert!(matches!(site.add_sitemap_urls(&sitemap), Some(Ok(()))));
    let page = to_url("https://example.com/a").unwrap();
    let links = vec![parse_link("/c", "https://example.com/a").unwrap()];
    assert!(site.add_page_links(&page, &links).is_ok());
    let src = PageLinkSource { link_source_type: LinkSourceType::Link, url: to_url("https://example.com/").unwrap() };
    match site.add_link("relative/only", src) {
        Err(SiteError::UrlParseError(m)) => assert!(m.starts_with("Failed to parse URL: ")),
        _ => panic!("expected a parse error"),
    }
    assert!(matches!(Site::new("no"), Err(SiteError::UrlParseError(_))));
    let mut odd = Site::new("mailto:me@example.com").unwrap();
    assert!(odd.add_sitemap_urls(&sitemap).is_none());
}
