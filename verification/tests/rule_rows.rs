use serpeo::seo_plugins::utils::config::{RuleCategory, RuleResult, Severity, SiteCheckContext};
use serpeo::seo_plugins::site_analyzer::{AnalysisProgress, AnalysisProgressType, PageLink, PageResult};
use serpeo::seo_plugins::utils::link_parser::LinkType;
use serpeo::seo_storage::utils::rule_rows::{page_rule_rows, progress_rows, site_rule_rows};

fn result(rule_id: &str, passed: bool, context: SiteCheckContext) -> RuleResult {
    RuleResult {
        rule_id: rule_id.to_string(),
        name: String::new(),
        plugin_name: String::new(),
        passed,
        message: String::new(),
        severity: Severity::Info,
        category: RuleCategory::SEO,
        context,
    }
}

#[test]
fn site_results_become_rows_per_url() {
    let results = vec![
        result("orphaned_page.check", false, SiteCheckContext::Urls(vec!["u1".to_string(), "u2".to_string()])),
        result("meta_description_uniqueness", true, SiteCheckContext::Values(vec![
            ("d1".to_string(), vec!["u3".to_string()]),
            ("d2".to_string(), vec!["u4".to_string(), "u5".to_string()]),
        ])),
        result("other", true, SiteCheckContext::Empty),
    ];
    let rows = site_rule_rows(&results);
    let got: Vec<(String, String, bool)> = rows.into_iter().map(|r| (r.url, r.rule_id, r.passed)).collect();
    assert_eq!(got, vec![
        ("u1".to_string(), "orphaned_page.check".to_string(), false),
        ("u2".to_string(), "orphaned_page.check".to_string(), false),
        ("u3".to_string(), "meta_description_uniqueness".to_string(), true),
        ("u4".to_string(), "meta_description_uniqueness".to_string(), true),
        ("u5".to_string(), "meta_description_uniqueness".to_string(), true),
    ]);
}

fn progress(progress_type: AnalysisProgressType) -> AnalysisProgress {
    AnalysisProgress { progress_type, url: None, total_pages: 1, completed_pages: 1 }
}

fn rows_of(rows: Vec<serpeo::seo_storage::utils::rule_rows::RuleRow>) -> Vec<(String, String, bool)> {
    rows.into_iter().map(|r| (r.url, r.rule_id, r.passed)).collect()
}

#[test]
fn progress_reports_choose_their_rows() {
    let analyzed = PageLink {
        url: "https://a.com/x".to_string(),
        link_type: LinkType::Internal,
        found_in: Vec::new(),
        result: Some(PageResult {
            error: false,
            results: vec![
                result("title.has_title", true, SiteCheckContext::Empty),
                result("title.title_length", false, SiteCheckContext::Empty),
            ],
        }),
    };
    assert_eq!(
        rows_of(progress_rows(&progress(AnalysisProgressType::AnalyzedPage(analyzed)))),
        vec![
            ("https://a.com/x".to_string(), "title.has_title".to_string(), true),
            ("https://a.com/x".to_string(), "title.title_length".to_string(), false),
        ]
    );
    let unanalyzed = PageLink { url: "https://a.com/y".to_string(), link_type: LinkType::Internal, found_in: Vec::new(), result: None };
    assert!(page_rule_rows(&unanalyzed).is_empty());
    let site = vec![result("orphaned_page.check", false, SiteCheckContext::Urls(vec!["u1".to_string()]))];
    assert_eq!(
        rows_of(progress_rows(&progress(AnalysisProgressType::AnalyzedSite(site)))),
        vec![("u1".to_string(), "orphaned_page.check".to_string(), false)]
    );
    assert!(progress_rows(&progress(AnalysisProgressType::FoundLink)).is_empty());
}
