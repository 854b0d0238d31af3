use std::collections::HashMap;

use serpeo::seo_plugins::site_analyzer::{
    AnalysisProgress, AnalysisProgressType, CrawlResult, PageLink, SiteAnalyzer,
};
use serpeo::seo_plugins::utils::link_parser::{to_url, LinkType};
use serpeo::seo_plugins::utils::page::Page;
use serpeo::seo_plugins::utils::sitemap_parser::SitemapParser;

const BASE: &str = "http://127.0.0.1:4321";

fn html_page(links: &str) -> String {
    format!(
        r#"
        <!DOCTYPE html>
        <html>
            <head>
                <meta charset="utf-8">
                <title>Test Page</title>
                <meta name="description" content="Test description">
            </head>
            <body>
                {}
            </body>
        </html>
        "#,
        links
    )
}

fn urlset(base: &str, paths: &[&str]) -> String {
    let urls: String = paths.iter().map(|p| format!("<url><loc>{}{}</loc></url>\n", base, p)).collect();
    format!(
        r#"<?xml version="1.0" encoding="UTF-8"?>
        <urlset xmlns="http://www.sitemaps.org/schemas/sitemap/0.9" xmlns:news="http://www.google.com/schemas/sitemap-news/0.9" xmlns:xhtml="http://www.w3.org/1999/xhtml" xmlns:image="http://www.google.com/schemas/sitemap-image/1.1" xmlns:video="http://www.google.com/schemas/sitemap-video/1.1">
        {}
        </urlset>"#,
        urls
    )
}

/// The pages both test sites share.
fn common_pages(path: &str) -> Option<String> {
    match path {
        "/" => Some(html_page(
            r#"<a href="/page1">Page 1</a>
               <a href="/page1">Page 1</a>
               <a href="/page2">Page 2</a>"#,
        )),
        "/page1" => Some(html_page(r#"<a href="/page5">Page 5</a>"#)),
        "/page5" => Some(html_page(r#"<a href="/page6">Page 6</a>"#)),
        "/page6" => Some(html_page(r#"<a href="/page4">Page 4</a>"#)),
        _ => None,
    }
}

/// A site with one sitemap in the usual place.
fn plain_site(base: &str, path: &str) -> String {
    if let Some(page) = common_pages(path) {
        return page;
    }
    match path {
        "/sitemap.xml" => urlset(base, &["/page3", "/page1"]),
        _ => "404".to_string(),
    }
}

/// A site whose sitemaps sit behind a sitemap index.
fn weird_site(base: &str, path: &str) -> String {
    if let Some(page) = common_pages(path) {
        return page;
    }
    match path {
        "/sitemap_index.xml" => format!(
            r#"<?xml version="1.0" encoding="UTF-8"?>
            <sitemapindex xmlns="http://www.sitemaps.org/schemas/sitemap/0.9">
            <sitemap><loc>{b}/post-sitemap.xml</loc></sitemap>
            <sitemap><loc>{b}/page-sitemap.xml</loc></sitemap>
            <sitemap><loc>{b}/category-sitemap.xml</loc></sitemap>
            </sitemapindex>"#,
            b = base
        ),
        "/post-sitemap.xml" => urlset(base, &["/post1", "/post2", "/post3"]),
        "/page-sitemap.xml" => urlset(base, &["/sitemap-page-1", "/sitemap-page-2", "/sitemap-page-3"]),
        "/category-sitemap.xml" => urlset(base, &["/category1", "/category2", "/category3"]),
        _ => "404".to_string(),
    }
}

fn path_of(url: &str) -> String {
    let rest = &url[BASE.len()..];
    if rest.is_empty() { "/".to_string() } else { rest.to_string() }
}

/// The page the site answers for `url`.
fn fetched(url: &str, site: fn(&str, &str) -> String) -> Page {
    let html = site(BASE, &path_of(url));
    let len = html.len() as u64;
    Page::from_fetch(to_url(url).unwrap(), html, Some(len), 200)
}

/// Crawls the site, answering every request from `site`; returns the
/// analyzer, the result and every progress report in order.
fn crawl(site: fn(&str, &str) -> String) -> (SiteAnalyzer, CrawlResult, Vec<AnalysisProgress>) {
    let mut sitemaps = SitemapParser::new(BASE).unwrap();
    let home = fetched(BASE, site);
    sitemaps.seed_sitemaps(SitemapParser::discover_sitemap_url(&home)).unwrap();
    loop {
        let pending = sitemaps.pending_sitemaps();
        if pending.is_empty() {
            break;
        }
        for url in pending {
            let text = site(BASE, &path_of(&url));
            sitemaps.record_sitemap(&url, &text);
        }
    }
    let sitemap_urls = sitemaps.get_sitemap();

    let mut analyzer = SiteAnalyzer::new_with_default(BASE).unwrap();
    let mut events = Vec::new();
    analyzer.seed_links(&sitemap_urls, &mut events).unwrap();
    loop {
        let pending = analyzer.pending_pages();
        if pending.is_empty() {
            break;
        }
        for key in pending {
            let url = to_url(&key).unwrap();
            let page = fetched(&key, site);
            analyzer.process_page(&url, Some(page), &mut events).unwrap();
        }
    }
    let result = analyzer.finish(&mut events).unwrap();
    (analyzer, result, events)
}

#[test]
fn test_site_crawl_with_progress_callback() {
    let (analyzer, _, _) = crawl(weird_site);
    let links = analyzer.get_links();
    let error_links = links
        .iter()
        .filter(|link| link.result.is_some() && link.result.as_ref().unwrap().error)
        .collect::<Vec<_>>();
    assert!(error_links.is_empty());
    assert!(error_links.len() < 10);
    assert!(error_links.len() < links.len());
    assert!(error_links.len() < links.len() / 2);
    assert!(error_links.len() < links.len() / 3);
}

#[test]
fn test_site_crawl_with_progress() {
    let (_, results, events) = crawl(weird_site);
    let mut local_results: HashMap<String, PageLink> = HashMap::new();
    for progress in events {
        match progress.progress_type {
            AnalysisProgressType::FoundLink => {
                let url = progress.url.clone().unwrap();
                local_results.insert(
                    url.clone(),
                    PageLink { url, link_type: LinkType::Internal, found_in: Vec::new(), result: None },
                );
            }
            AnalysisProgressType::AnalyzedPage(link) => {
                local_results.insert(link.url.clone(), link);
            }
            _ => {}
        }
    }
    assert_eq!(local_results.len() as u32, results.total_pages);
    let test_paths = [
        "/post1",
        "/post2",
        "/post3",
        "/sitemap-page-1",
        "/sitemap-page-2",
        "/sitemap-page-3",
        "/category1",
        "/category2",
        "/category3",
    ];
    for path in test_paths {
        let url = format!("{}{}", BASE, path);
        assert!(results.page_results.iter().any(|result| result.url == url), "Results - path: {} not found", path);
        assert!(local_results.get(&url).is_some(), "path: {} not found", path);
    }
}

#[test]
fn test_site_crawl() {
    let (analyzer, results, _) = crawl(plain_site);
    let links = analyzer.get_links();
    let get = |path: &str| {
        let url = if path == "/" { format!("{}/", BASE) } else { format!("{}{}", BASE, path) };
        links.iter().find(|l| l.url == url)
    };
    let page1 = get("/page1").unwrap();
    assert_eq!(page1.found_in.len(), 2);
    for path in ["/", "/page1", "/page2", "/page3", "/page4", "/page5", "/page6"] {
        assert!(get(path).is_some(), "path: {} not found", path);
    }
    for result in results.page_results {
        if result.link_type == LinkType::Internal {
            assert!(result.result.is_some());
            assert!(!result.result.unwrap().results.is_empty());
        }
    }
    assert!(!results.site_result.is_empty());
    let meta_description_uniqueness = results
        .site_result
        .iter()
        .find(|result| result.rule_id == "meta_description_uniqueness")
        .unwrap();
    assert!(!meta_description_uniqueness.passed);
    let orphaned_page = results.site_result.iter().find(|result| result.rule_id == "orphaned_page.check").unwrap();
    assert!(!orphaned_page.passed);
}
