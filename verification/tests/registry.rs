use serpeo::seo_plugins::utils::config::Severity;
use serpeo::seo_plugins::plugins::html::HtmlPlugin;
use serpeo::seo_plugins::plugins::title::TitlePlugin;
use serpeo::seo_plugins::site_analyzer::SiteLinks;
use serpeo::seo_plugins::utils::config::{RuleConfig, RuleType};
use serpeo::seo_plugins::utils::page::{Page, PageError};
use serpeo::seo_plugins::utils::registry::{PagePluginKind, PluginRegistry};

#[test]
fn all_ids_are_unique() {
    let registry = PluginRegistry::default_with_config();
    let ids = registry
        .get_available_rules()
        .iter()
        .map(|rule| rule.id.clone())
        .collect::<Vec<String>>();
    let mut unique_ids = ids.clone();
    unique_ids.sort();
    unique_ids.dedup();
    assert_eq!(ids.len(), unique_ids.len());
}

#[test]
fn registry_without_config_refuses_to_analyze() {
    let mut registry = PluginRegistry::default();
    let page = Page::from_html("<html></html>".to_string());
    assert!(matches!(registry.analyze(&page), Err(PageError::ConfigNotSet)));
    assert!(matches!(registry.get_config(), Err(PageError::ConfigNotSet)));
    assert!(matches!(registry.analyze_site(&SiteLinks::new()), Err(PageError::ConfigNotSet)));
}

#[test]
fn registry_runs_only_enabled_rules() {
    let mut registry = PluginRegistry::new();
    registry.register(PagePluginKind::Html(HtmlPlugin::new())).unwrap();
    let mut config = RuleConfig::new();
    config.enable_rule("html.title");
    registry.set_config(config);
    let page = Page::from_html("<html><head><title>Test Page</title></head></html>".to_string());
    let results = registry.analyze(&page).unwrap();
    assert_eq!(results.len(), 1);
    assert_eq!(results[0].rule_id, "html.title");
    assert!(results[0].passed);
    let page = Page::from_html("<html><head></head></html>".to_string());
    let results = registry.analyze(&page).unwrap();
    assert_eq!(results.len(), 1);
    assert!(!results[0].passed);
}

#[test]
fn registering_a_kind_twice_keeps_one() {
    let mut registry = PluginRegistry::new();
    registry.register(PagePluginKind::Title(TitlePlugin::new())).unwrap();
    let once = registry.get_available_rules().len();
    registry.register(PagePluginKind::Title(TitlePlugin::new())).unwrap();
    assert_eq!(registry.get_available_rules().len(), once);
    assert_eq!(once, 2);
}

#[test]
fn default_registry_lists_site_rules_last() {
    let registry = PluginRegistry::default();
    let rules = registry.get_available_rules();
    let n = rules.len();
    assert_eq!(rules[n - 2].id, "meta_description_uniqueness");
    assert_eq!(rules[n - 1].id, "orphaned_page.check");
    assert!(matches!(rules[n - 1].rule_type, RuleType::Site));
    assert!(matches!(rules[0].rule_type, RuleType::Page));
}

const LINKS_BODY: &str = r#"
                <a href="/page1">Page 1</a>
                <a href="/page2">Page 2</a>
                <a href="/page1?param=value">Page 1 with params</a>
                <a href="/page1#section">Page 1 with hash</a>
                <a href="/page1?param=value#section">Page 1 with both</a>
                <a href="https://external.com">External</a>
"#;

#[test]
fn test_registry() {
    let html = format!(
        "<html><head><title>Test Page</title></head><body>{}</body></html>",
        LINKS_BODY
    );
    let page = Page::from_html(html);
    let mut registry = PluginRegistry::default();
    let mut config = RuleConfig::new();
    config.enable_rule("html.title");
    registry.set_config(config);
    let results = registry.analyze(&page).unwrap();
    assert_eq!(results.len(), 1);
    assert_eq!(results[0].rule_id, "html.title");
    assert_eq!(results[0].passed, true);
}

#[test]
fn test_static_html() {
    let html = format!("<html><head></head><body>{}</body></html>", LINKS_BODY);
    let page = Page::from_html(html);
    let mut config = RuleConfig::new();
    config.enable_rule("html.title");
    let mut registry = PluginRegistry::default();
    registry.set_config(config);
    let results = registry.analyze(&page).unwrap();
    assert_eq!(results.len(), 1);
    assert_eq!(results[0].rule_id, "html.title");
    assert_eq!(results[0].passed, false);
}

#[test]
fn stored_config_keeps_switches_and_severities() {
    let mut registry = PluginRegistry::new();
    assert!(matches!(registry.get_config(), Err(PageError::ConfigNotSet)));
    let mut config = RuleConfig::new();
    config.enable_rule("html.title");
    config.set_severity("html.title", Severity::Critical);
    config.disable_rule("title.has_title");
    registry.set_config(config);
    let stored = registry.get_config().unwrap();
    assert!(stored.is_rule_enabled("html.title"));
    assert!(!stored.is_rule_enabled("title.has_title"));
    assert!(matches!(stored.get_severity("html.title", Severity::Info), Severity::Critical));
    assert!(matches!(stored.get_severity("title.has_title", Severity::Info), Severity::Info));
    let mut other = RuleConfig::new();
    other.enable_rule("title.has_title");
    registry.set_config(other);
    let stored = registry.get_config().unwrap();
    assert!(!stored.is_rule_enabled("html.title"));
    assert!(stored.is_rule_enabled("title.has_title"));
}
