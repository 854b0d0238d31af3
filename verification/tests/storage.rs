use serpeo::seo_storage::enums::{DbLinkType, DbRuleCategory, DbSeverity, DbRuleType, SiteRunStatus};
use serpeo::seo_storage::models::{PageRuleResultModel, PluginRuleModel, SiteModel, SitePageModel, SiteRunModel};
use serpeo::seo_storage::utils::category_counts::{get_category_counts, get_category_result_display};
use serpeo::seo_storage::utils::category_detail::get_category_detail;
use serpeo::seo_storage::utils::sites_with_site_runs::get_sites_with_site_runs;
use serpeo::seo_plugins::utils::config::{RuleCategory, RuleType, Severity};
use serpeo::seo_plugins::utils::link_parser::LinkType;

fn rule(category: DbRuleCategory, n: usize) -> PluginRuleModel {
    PluginRuleModel {
        id: format!("rule-{}", n),
        name: format!("Rule {}", n),
        plugin_name: "Plugin".to_string(),
        description: "A rule".to_string(),
        category,
        severity: DbSeverity::Warning,
        passed_message: "ok".to_string(),
        failed_message: "not ok".to_string(),
    }
}

fn outcome(n: i32, passed: bool) -> PageRuleResultModel {
    PageRuleResultModel { id: n, rule_id: format!("rule-{}", n), passed }
}

fn create_test_data() -> Vec<(PluginRuleModel, Vec<PageRuleResultModel>)> {
    let mut data = Vec::new();
    let categories = vec![
        DbRuleCategory::Accessibility,
        DbRuleCategory::Performance,
        DbRuleCategory::BestPractices,
        DbRuleCategory::SEO,
    ];
    let mut n = 0;
    for category in categories {
        match category {
            DbRuleCategory::Accessibility => {
                data.push((rule(category, n), vec![outcome(n as i32, true)]));
                n += 1;
            }
            DbRuleCategory::Performance => {
                for _ in 0..10 {
                    for _ in 0..10 {
                        data.push((rule(DbRuleCategory::Performance, n), vec![outcome(n as i32, true)]));
                        n += 1;
                    }
                }
            }
            DbRuleCategory::BestPractices => {
                for _ in 0..10 {
                    for i in 0..10 {
                        data.push((rule(DbRuleCategory::BestPractices, n), vec![outcome(n as i32, i % 2 == 0)]));
                        n += 1;
                    }
                }
            }
            _ => {}
        }
    }
    data
}

#[test]
fn test_get_category_counts() {
    let data = create_test_data();
    let result = get_category_counts(data);
    let a = result.get(DbRuleCategory::Accessibility).unwrap();
    assert_eq!(a.total, 1);
    assert_eq!(a.passed, 1);
    assert_eq!(a.failed, 0);

    let p = result.get(DbRuleCategory::Performance).unwrap();
    assert_eq!(p.total, 100);
    assert_eq!(p.passed, 100);
    assert_eq!(p.failed, 0);

    let b = result.get(DbRuleCategory::BestPractices).unwrap();
    assert_eq!(b.total, 100);
    assert_eq!(b.passed, 50);
    assert_eq!(b.failed, 50);
}

#[test]
fn category_counts_keep_first_seen_order_and_sum() {
    let data = vec![
        (rule(DbRuleCategory::SEO, 0), vec![outcome(0, true), outcome(1, false)]),
        (rule(DbRuleCategory::Performance, 1), vec![]),
        (rule(DbRuleCategory::SEO, 2), vec![outcome(2, false)]),
    ];
    let result = get_category_counts(data);
    assert_eq!(result.len(), 2);
    assert!(result.entries[0].0 == DbRuleCategory::SEO);
    assert!(result.entries[1].0 == DbRuleCategory::Performance);
    assert!(result.get(DbRuleCategory::Accessibility).is_none());
    let seo = result.get(DbRuleCategory::SEO).unwrap();
    assert_eq!((seo.total, seo.passed, seo.failed), (3, 1, 2));
    let display = get_category_result_display(result);
    assert_eq!((display.total, display.passed, display.failed), (3, 1, 2));
}

#[test]
fn test_category_detail() {
    let page = |n: i32| Some(SitePageModel { id: n, url: format!("https://example.com/{}", n) });
    let res = vec![
        (outcome(1, true), page(1), Some(rule(DbRuleCategory::Accessibility, 1))),
        (outcome(2, false), page(2), Some(rule(DbRuleCategory::Performance, 2))),
        (outcome(3, true), page(3), Some(rule(DbRuleCategory::Performance, 3))),
    ];
    let category_detail = get_category_detail(res);
    assert!(category_detail.is_ok());
    let category_detail = category_detail.unwrap();
    assert_eq!(category_detail.data.len(), 2);
    assert!(category_detail.data[0].0 == DbRuleCategory::Accessibility);
    assert_eq!(category_detail.data[0].1.len(), 1);
    assert!(category_detail.data[1].0 == DbRuleCategory::Performance);
    assert_eq!(category_detail.data[1].1.len(), 2);
    assert_eq!(category_detail.data[1].1[0].message, "not ok");
    assert_eq!(category_detail.data[1].1[1].message, "ok");
    assert_eq!(category_detail.data[1].1[1].page_url, "https://example.com/3");
}

#[test]
fn sites_keep_their_runs() {
    let data = vec![
        (SiteModel { id: 1, name: "a".to_string(), url: "https://a.com".to_string() },
         vec![SiteRunModel { id: 7, site_id: 1, status: SiteRunStatus::Finished }]),
        (SiteModel { id: 2, name: "b".to_string(), url: "https://b.com".to_string() }, vec![]),
    ];
    let out = get_sites_with_site_runs(data);
    assert_eq!(out.len(), 2);
    assert_eq!(out[0].site.id, 1);
    assert_eq!(out[0].site_runs[0].id, 7);
    assert!(out[1].site_runs.is_empty());
}

#[test]
fn stored_kinds_follow_analysis_kinds() {
    assert!(DbLinkType::from(LinkType::Mailto) == DbLinkType::Mailto);
    assert!(DbSeverity::from(Severity::Critical) == DbSeverity::Critical);
    assert!(DbRuleCategory::from(RuleCategory::BestPractices) == DbRuleCategory::BestPractices);
    assert!(DbRuleType::from(RuleType::Site) == DbRuleType::Site);
}
