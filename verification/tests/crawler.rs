use serpeo::seo_analyzer::analyzer::{unanalyzed_urls, AnalysisStatus, Analyzer, AnalyzerError};
use serpeo::seo_analyzer::config::Config;
use serpeo::seo_analyzer::crawler::{Crawler, CrawlerError, UrlSource};
use serpeo::html_parser::page_parser::PageParserError;
use serpeo::seo_plugins::utils::crawl_config::{CrawlConfig, CrawlConfigError};
use serpeo::text_map::TextMap;

#[test]
fn crawler_follows_internal_links_once() {
    let mut crawler = Crawler::new("https://example.com").unwrap();
    crawler.start(&vec!["https://example.com/page1/".to_string(), "https://example.com/page3".to_string()]);
    let batch = crawler.next_batch();
    assert_eq!(batch, vec!["https://example.com/"]);
    assert!(crawler.is_done());
    let html = r#"<html><body><a href="/page1">1</a><a href="/page2">2</a><a href="/page1/">1 again</a><a href="https://external.com">x</a></body></html>"#;
    let found = crawler.record_page("https://example.com/", Ok(html.to_string())).unwrap();
    assert_eq!(found, vec!["https://example.com/page1", "https://example.com/page2", "https://example.com/page1/"]);
    crawler.enqueue(&found);
    assert_eq!(crawler.next_batch(), vec!["https://example.com/page1", "https://example.com/page2"]);
    let found = crawler.record_page("https://example.com/page1", Ok("<html></html>".to_string())).unwrap();
    assert!(found.is_empty());
    assert!(matches!(crawler.record_page("https://example.com/page2", Err("timed out".to_string())), Err(CrawlerError::FetchError(_))));
    assert!(matches!(
        crawler.record_page("nope", Ok(String::new())),
        Err(CrawlerError::PageParserError(PageParserError::UrlParseError(_)))
    ));
    let result = crawler.into_result();
    assert_eq!(result.total_pages, 3);
    let page1: &UrlSource = result.urls.get("https://example.com/page1").unwrap();
    assert!(page1.found_in_links && page1.found_in_sitemap && page1.analysis.is_some());
    let page3 = result.urls.get("https://example.com/page3").unwrap();
    assert!(!page3.found_in_links && page3.found_in_sitemap && page3.analysis.is_none());
    let root = result.urls.get("https://example.com").unwrap();
    assert!(root.found_in_links && !root.found_in_sitemap);
    assert!(result.urls.get("https://example.com/page2").is_none());
}

#[test]
fn crawler_sitemap_helpers() {
    let crawler = Crawler::new("https://example.com/").unwrap();
    assert_eq!(
        crawler.sitemap_candidates(None),
        vec!["https://example.com/sitemap.xml", "https://example.com/sitemap_index.xml", "https://example.com/sitemap/sitemap.xml"]
    );
    assert_eq!(crawler.sitemap_candidates(Some("https://example.com/map.xml/".to_string())), vec!["https://example.com/map.xml"]);
    let urls = Crawler::parse_sitemap_urls("<urlset><url><loc>https://a.com/x/</loc></url><url><loc>https://a.com/x</loc></url></urlset>");
    assert_eq!(urls, vec!["https://a.com/x"]);
    assert!(Crawler::is_sitemap_index("<sitemapindex>"));
    assert!(!Crawler::is_sitemap_index("<urlset>"));
    assert!(matches!(Crawler::new(""), Err(CrawlerError::UrlParseError(_))));
}

#[test]
fn analyzer_collects_the_crawl_analyses() {
    let mut crawler = Crawler::new("https://example.com").unwrap();
    crawler.start(&Vec::new());
    let _ = crawler.next_batch();
    crawler.record_page("https://example.com/", Ok("<html><head><title>Home</title></head></html>".to_string())).unwrap();
    let result = crawler.into_result();
    let analyzer = Analyzer::new("https://example.com", false).unwrap();
    let progress = analyzer.analyze_crawl_result(result, &TextMap::new()).unwrap();
    assert_eq!(progress.total_urls, 1);
    assert_eq!(progress.completed_urls, 1);
    let home = progress.results.get("https://example.com").unwrap();
    assert!(matches!(home.status, AnalysisStatus::Complete));
    assert_eq!(home.analysis.meta_tags.title, Some("Home".to_string()));
}

#[test]
fn analyzer_fails_on_unreadable_unanalyzed_page() {
    let mut urls: TextMap<UrlSource> = TextMap::new();
    urls.insert("not a url".to_string(), UrlSource { found_in_links: false, found_in_sitemap: true, analysis: None });
    let result = serpeo::seo_analyzer::crawler::CrawlResult { urls, total_pages: 1 };
    let analyzer = Analyzer::new("https://example.com", true).unwrap();
    assert!(matches!(
        analyzer.analyze_crawl_result(result, &TextMap::new()),
        Err(AnalyzerError::PageParserError(PageParserError::UrlParseError(_)))
    ));
    assert!(matches!(Analyzer::new("bad", false), Err(AnalyzerError::UrlParseError(_))));
}

#[test]
fn configs_hold_what_they_are_given() {
    let c = Config::new("https://a.com".to_string(), 3, 50);
    assert_eq!((c.base_url.as_str(), c.max_concurrent_requests, c.request_delay_ms), ("https://a.com", 3, 50));
    let d = Config::default();
    assert_eq!((d.base_url.as_str(), d.max_concurrent_requests, d.request_delay_ms), ("https://example.com", 10, 100));
    let cc = CrawlConfig::new("https://b.com".to_string(), 1, 2);
    assert_eq!(cc.get_url().unwrap().as_str(), "https://b.com/");
    assert!(matches!(CrawlConfig::new("x".to_string(), 1, 2).get_url(), Err(CrawlConfigError::UrlParseError(_))));
    let dc = CrawlConfig::default();
    assert_eq!((dc.max_concurrent_requests, dc.request_delay_ms), (10, 100));
}

#[test]
fn analyzer_reads_the_fetched_pages() {
    let mut urls: TextMap<UrlSource> = TextMap::new();
    for u in ["https://example.com/a", "https://example.com/b", "https://example.com/c"] {
        urls.insert(u.to_string(), UrlSource { found_in_links: false, found_in_sitemap: true, analysis: None });
    }
    let result = serpeo::seo_analyzer::crawler::CrawlResult { urls, total_pages: 3 };
    assert_eq!(
        unanalyzed_urls(&result),
        vec!["https://example.com/a", "https://example.com/b", "https://example.com/c"]
    );
    let mut fetched: TextMap<Result<String, String>> = TextMap::new();
    fetched.insert(
        "https://example.com/a".to_string(),
        Ok("<html><head><title>A</title></head><body><a href='/b'>b</a></body></html>".to_string()),
    );
    fetched.insert("https://example.com/b".to_string(), Err("timed out".to_string()));
    let analyzer = Analyzer::new("https://example.com", false).unwrap();
    let progress = analyzer.analyze_crawl_result(result, &fetched).unwrap();
    assert_eq!(progress.total_urls, 3);
    assert_eq!(progress.completed_urls, 1);
    let a = progress.results.get("https://example.com/a").unwrap();
    assert!(matches!(a.status, AnalysisStatus::Complete));
    assert_eq!(a.analysis.meta_tags.title, Some("A".to_string()));
    assert_eq!(a.analysis.links.len(), 1);
    assert_eq!(a.analysis.links[0].href, "https://example.com/b");
    let b = progress.results.get("https://example.com/b").unwrap();
    assert!(matches!(&b.status, AnalysisStatus::Failed(m) if m == "timed out"));
    assert!(b.analysis.meta_tags.title.is_none() && b.analysis.links.is_empty());
    assert_eq!(b.analysis.base_info.base_url, "https://example.com/b");
    let c = progress.results.get("https://example.com/c").unwrap();
    assert!(matches!(c.status, AnalysisStatus::Pending));
}

const CRAWL_BASE: &str = "http://127.0.0.1:4321";

/// What the test site answers for `path`.
fn crawl_site(path: &str) -> String {
    match path {
        "/" => r#"
            <html>
                <body>
                    <a href="/page1">Page 1</a>
                    <a href="/page2">Page 2</a>
                    <a href="/page1?param=value">Page 1 with params</a>
                    <a href="/page1#section">Page 1 with hash</a>
                    <a href="/page1?param=value#section">Page 1 with both</a>
                    <a href="https://external.com">External</a>
                </body>
            </html>
        "#
        .to_string(),
        "/sitemap.xml" => format!(
            r#"<?xml version="1.0" encoding="UTF-8"?>
<urlset xmlns="http://www.sitemaps.org/schemas/sitemap/0.9">
<url><loc>{b}/page1</loc></url>
<url><loc>{b}/page3</loc></url>
<url><loc>{b}/page1?param=value</loc></url>
<url><loc>{b}/page1#section</loc></url>
<url><loc>{b}/page1?param=value#section</loc></url>
</urlset>"#,
            b = CRAWL_BASE
        ),
        "/page1" => "<html><body>Page 1</body></html>".to_string(),
        "/page2" => "<html><body>Page 2</body></html>".to_string(),
        "/page3" => "<html><body>Page 3</body></html>".to_string(),
        _ => "404".to_string(),
    }
}

fn served_path(url: &str) -> String {
    let rest = &url[CRAWL_BASE.len()..];
    let rest = rest.split(|c| c == '?' || c == '#').next().unwrap();
    if rest.is_empty() { "/".to_string() } else { rest.to_string() }
}

#[test]
fn test_crawler() {
    let base_url = CRAWL_BASE;
    let mut crawler = Crawler::new(base_url).unwrap();
    let mut sitemap_urls = Vec::new();
    for sitemap in crawler.sitemap_candidates(None) {
        let text = crawl_site(&served_path(&sitemap));
        let (urls, subs) = Crawler::read_sitemap(&text);
        sitemap_urls.extend(urls);
        for sub in subs {
            sitemap_urls.extend(Crawler::parse_sitemap_urls(&crawl_site(&served_path(&sub))));
        }
    }
    crawler.start(&sitemap_urls);
    while !crawler.is_done() {
        let batch = crawler.next_batch();
        let mut found_all = Vec::new();
        for url in batch {
            let fetched = Ok(crawl_site(&served_path(&url)));
            if let Some(Ok(found)) = crawler.try_record_page(&url, fetched) {
                found_all.push(found);
            }
        }
        for found in found_all {
            crawler.enqueue(&found);
        }
    }
    let result = crawler.into_result();

    assert!(result.urls.get(&format!("{}/page1", base_url)).is_some());
    assert!(result.urls.get(&format!("{}/page2", base_url)).is_some());
    assert!(result.urls.get(&format!("{}/page3", base_url)).is_some());

    let page1_source = result.urls.get(&format!("{}/page1", base_url)).unwrap();
    assert!(page1_source.found_in_links);
    assert!(page1_source.found_in_sitemap);

    let page2_source = result.urls.get(&format!("{}/page2", base_url)).unwrap();
    assert!(page2_source.found_in_links);
    assert!(!page2_source.found_in_sitemap);

    let page3_source = result.urls.get(&format!("{}/page3", base_url)).unwrap();
    assert!(!page3_source.found_in_links);
    assert!(page3_source.found_in_sitemap);

    assert!(result.urls.get("https://external.com").is_none());

    for (url, _) in result.urls.into_entries() {
        assert!(!url.contains('?'), "URL should not contain query parameters: {}", url);
        assert!(!url.contains('#'), "URL should not contain hash fragments: {}", url);
    }
}

#[test]
fn sitemap_index_points_to_sitemaps() {
    let index = "<sitemapindex><sitemap><loc>https://a.com/s1.xml</loc></sitemap><sitemap><loc>https://a.com/s2.xml/</loc></sitemap></sitemapindex>";
    let (urls, subs) = Crawler::read_sitemap(index);
    assert!(urls.is_empty());
    assert_eq!(subs, vec!["https://a.com/s1.xml", "https://a.com/s2.xml"]);
    let (urls, subs) = Crawler::read_sitemap("<urlset><url><loc>https://a.com/p/</loc></url></urlset>");
    assert_eq!(urls, vec!["https://a.com/p"]);
    assert!(subs.is_empty());
}
