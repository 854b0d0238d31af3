use serpeo::desktop::settings::CrawlSettingsStore;
use serpeo::seo_plugins::plugins::axe::{get_required_aria_attributes, is_valid_aria_attribute};
use serpeo::seo_plugins::utils::config::{RuleConfig, Severity};

#[test]
fn rule_switches_read_back() {
    let mut config = RuleConfig::new();
    assert!(!config.is_rule_enabled("title.has_title"));
    config.enable_rule("title.has_title");
    assert!(config.is_rule_enabled("title.has_title"));
    assert!(!config.is_rule_enabled("title.title_length"));
    config.disable_rule("title.has_title");
    assert!(!config.is_rule_enabled("title.has_title"));
}

#[test]
fn rule_severities_read_back() {
    let mut config = RuleConfig::new();
    assert_eq!(config.get_severity("x", Severity::Info), Severity::Info);
    config.set_severity("x", Severity::Critical);
    assert_eq!(config.get_severity("x", Severity::Info), Severity::Critical);
    assert_eq!(config.get_severity("y", Severity::Warning), Severity::Warning);
}

#[test]
fn crawl_settings_default() {
    let s = CrawlSettingsStore::default();
    assert_eq!((s.max_concurrent_requests, s.request_delay_ms), (10, 100));
    let kept = CrawlSettingsStore::or_default(Some(CrawlSettingsStore { max_concurrent_requests: 2, request_delay_ms: 5 }));
    assert_eq!(kept.max_concurrent_requests, 2);
    assert_eq!(CrawlSettingsStore::or_default(None).request_delay_ms, 100);
}

#[test]
fn aria_attribute_lists() {
    assert!(is_valid_aria_attribute("aria-label"));
    assert!(!is_valid_aria_attribute("aria-nonsense"));
    assert_eq!(get_required_aria_attributes("checkbox"), vec!["aria-checked"]);
    assert!(get_required_aria_attributes("button").is_empty());
}

#[test]
fn the_last_call_for_a_rule_wins() {
    let mut c = RuleConfig::new();
    let info = Severity::Info;
    assert!(!c.is_rule_enabled("a"));
    c.enable_rule("a");
    c.set_severity("a", Severity::Error);
    c.disable_rule("a");
    c.enable_rule("b");
    c.set_severity("a", Severity::Critical);
    c.enable_rule("a");
    c.disable_rule("b");
    assert!(c.is_rule_enabled("a"));
    assert!(!c.is_rule_enabled("b"));
    assert!(!c.is_rule_enabled("c"));
    assert!(matches!(c.get_severity("a", info), Severity::Critical));
    assert!(matches!(c.get_severity("b", info), Severity::Info));
}
