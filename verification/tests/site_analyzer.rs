use serpeo::seo_plugins::site_analyzer::{
    clean_url, AnalysisProgress, AnalysisProgressType, LinkSourceType, PageLinkSource, PageResult,
    SiteAnalyzer, SiteAnalyzerError,
};
use serpeo::seo_plugins::utils::config::SiteCheckContext;
use serpeo::seo_plugins::utils::link_parser::{to_url, LinkParseError, LinkType};
use serpeo::seo_plugins::utils::page::Page;
use serpeo::seo_plugins::utils::registry::PluginRegistry;

#[test]
fn site_analyzer_simple_url_test() {
    let base_url = url::Url::parse("https://example.com/something").unwrap();
    let test_url = base_url.join("/test").unwrap();
    let test_url_2 = base_url.join("test/test").unwrap();
    assert_eq!(test_url.to_string(), "https://example.com/test");
    assert_eq!(test_url_2.to_string(), "https://example.com/test/test");
}

#[test]
fn site_simple_url_test() {
    let base_url = url::Url::parse("https://example.com/something").unwrap();
    let test_url = base_url.join("/test").unwrap();
    let test_url_2 = base_url.join("test/test").unwrap();
    assert_eq!(test_url.to_string(), "https://example.com/test");
    assert_eq!(test_url_2.to_string(), "https://example.com/test/test");
}

fn page(url: &str, html: &str) -> Page {
    Page::from_fetch(to_url(url).unwrap(), html.to_string(), None, 200)
}

fn count(events: &[AnalysisProgress]) -> (usize, usize) {
    let found = events.iter().filter(|e| matches!(e.progress_type, AnalysisProgressType::FoundLink)).count();
    let analyzed = events.iter().filter(|e| matches!(e.progress_type, AnalysisProgressType::AnalyzedPage(_))).count();
    (found, analyzed)
}

#[test]
fn crawl_of_a_small_site() {
    let mut site = SiteAnalyzer::new_with_default("https://example.com").unwrap();
    let mut events = Vec::new();
    site.seed_links(&vec!["https://example.com/page1".to_string(), "/page2".to_string()], &mut events).unwrap();
    assert_eq!(events.len(), 3);
    assert_eq!(events[0].url, Some("https://example.com/page1".to_string()));
    assert_eq!(events[1].url, Some("https://example.com/page2".to_string()));
    assert_eq!(events[2].url, Some("https://example.com/".to_string()));
    assert_eq!((events[2].total_pages, events[2].completed_pages), (3, 0));
    assert_eq!(
        site.pending_pages(),
        vec!["https://example.com/page1", "https://example.com/page2", "https://example.com/"]
    );

    let mut events = Vec::new();
    let url1 = to_url("https://example.com/page1").unwrap();
    site.process_page(
        &url1,
        Some(page(
            "https://example.com/page1",
            r#"<html lang="en"><head><title>P1</title><meta name="description" content="Same"></head>
               <body><a href="/page3?x=1#f">3</a><a href="https://other.org/">o</a></body></html>"#,
        )),
        &mut events,
    )
    .unwrap();
    assert_eq!(count(&events), (2, 1));
    assert_eq!(events[0].url, Some("https://example.com/page1".to_string()));
    assert_eq!((events[0].total_pages, events[0].completed_pages), (3, 1));
    assert_eq!(events[1].url, Some("https://example.com/page3".to_string()));
    assert_eq!((events[2].total_pages, events[2].completed_pages), (4, 1));

    let mut events = Vec::new();
    site.process_page(&to_url("https://example.com/page2").unwrap(), None, &mut events).unwrap();
    assert_eq!(count(&events), (0, 1));
    assert_eq!(events[0].completed_pages, 2);

    site.process_page(
        &to_url("https://example.com/").unwrap(),
        Some(page(
            "https://example.com/",
            r#"<html><head><meta name="description" content="Same"></head><body><a href="/page1">1</a></body></html>"#,
        )),
        &mut events,
    )
    .unwrap();
    site.process_page(
        &to_url("https://example.com/page3").unwrap(),
        Some(page("https://example.com/page3", r#"<html><head><meta name="description" content="Other"></head></html>"#)),
        &mut events,
    )
    .unwrap();
    assert!(site.pending_pages().is_empty());

    let mut events = Vec::new();
    let result = site.finish(&mut events).unwrap();
    assert_eq!(result.total_pages, 5);
    assert_eq!(result.page_results.len(), 5);
    assert_eq!(result.site_result.len(), 2);
    let uniqueness = &result.site_result[0];
    assert_eq!(uniqueness.rule_id, "meta_description_uniqueness");
    assert!(!uniqueness.passed);
    assert_eq!(uniqueness.message, "Meta description is unique across pages");
    let orphaned = &result.site_result[1];
    assert_eq!(orphaned.rule_id, "orphaned_page.check");
    assert!(!orphaned.passed);
    assert_eq!(orphaned.message, "Orphaned pages: 1");
    match &orphaned.context {
        SiteCheckContext::Urls(urls) => assert_eq!(urls, &vec!["https://example.com/page2".to_string()]),
        _ => panic!("expected the orphaned URLs"),
    }
    assert_eq!(count(&events), (0, 1));
    let page2 = result.page_results.iter().find(|l| l.url == "https://example.com/page2").unwrap();
    let recorded = page2.result.as_ref().unwrap();
    assert!(recorded.error);
    assert_eq!(recorded.results.len(), 1);
    assert_eq!(page2.found_in.len(), 2);
    let page1 = result.page_results.iter().find(|l| l.url == "https://example.com/page1").unwrap();
    assert_eq!(page1.found_in.len(), 2);
    let other = result.page_results.iter().find(|l| l.url == "https://other.org/").unwrap();
    assert_eq!(other.link_type, LinkType::External);
    assert!(other.result.is_none());
}

#[test]
fn adding_a_link_twice_reports_it_once() {
    let mut site = SiteAnalyzer::new_with_default("https://example.com").unwrap();
    let mut events = Vec::new();
    let src = || PageLinkSource { link_source_type: LinkSourceType::Link, url: "https://example.com/".to_string() };
    site.add_link("/a?b=c", src(), &mut events).unwrap();
    site.add_link("/a#top", src(), &mut events).unwrap();
    assert_eq!(events.len(), 1);
    let links = site.get_links();
    assert_eq!(links.len(), 1);
    assert_eq!(links[0].url, "https://example.com/a");
    assert_eq!(links[0].found_in.len(), 1);
}

#[test]
fn site_analyzer_errors() {
    assert!(matches!(
        SiteAnalyzer::new("not a url", PluginRegistry::default_with_config()),
        Err(SiteAnalyzerError::UrlParseError(LinkParseError::UrlParseError(_)))
    ));
    let mut site = SiteAnalyzer::new_with_default("https://example.com").unwrap();
    let mut events = Vec::new();
    let src = PageLinkSource { link_source_type: LinkSourceType::Link, url: String::new() };
    assert!(matches!(
        site.add_link("http://[broken", src, &mut events),
        Err(SiteAnalyzerError::UrlParseError(_))
    ));
    let result = PageResult { error: false, results: Vec::new() };
    match site.record_page_result(&to_url("https://example.com/missing").unwrap(), result, &mut events) {
        Err(SiteAnalyzerError::LinkNotFound(u)) => assert_eq!(u, "https://example.com/missing"),
        _ => panic!("expected LinkNotFound"),
    }
    assert!(events.is_empty());
    let mut unconfigured = SiteAnalyzer::new("https://example.com", PluginRegistry::default()).unwrap();
    assert!(matches!(unconfigured.finish(&mut events), Err(SiteAnalyzerError::PageError(_))));
    assert!(matches!(
        unconfigured.process_page(&to_url("https://example.com/").unwrap(), Some(page("https://example.com/", "<html></html>")), &mut events),
        Err(SiteAnalyzerError::PageError(_))
    ));
}

#[test]
fn clean_url_drops_query_and_fragment() {
    assert_eq!(clean_url("https://a.com/x?y=1#z".to_string()), "https://a.com/x");
    assert_eq!(clean_url("https://a.com/x#z?y".to_string()), "https://a.com/x");
    assert_eq!(clean_url("https://a.com/x".to_string()), "https://a.com/x");
    let once = clean_url("https://a.com/p?q#r".to_string());
    assert_eq!(clean_url(once.clone()), once);
}
