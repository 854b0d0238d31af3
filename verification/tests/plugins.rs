use serpeo::seo_plugins::plugins::axe::AxePlugin;
use serpeo::seo_plugins::plugins::image::ImagePlugin;
use serpeo::seo_plugins::plugins::meta_description::MetaDescriptionPlugin;
use serpeo::seo_plugins::plugins::request::RequestPlugin;
use serpeo::seo_plugins::plugins::seo_basic::SeoBasicPlugin;
use serpeo::seo_plugins::plugins::title::TitlePlugin;
use serpeo::seo_plugins::utils::config::{Rule, RuleConfig};
use serpeo::seo_plugins::utils::link_parser::to_url;
use serpeo::seo_plugins::utils::page::Page;

const BASE: &str = "http://127.0.0.1:4321";

const LINKS_BODY: &str = r#"
                                        <a href="/page1">Page 1</a>
                                        <a href="/page2">Page 2</a>
                                        <a href="/page1?param=value">Page 1 with params</a>
                                        <a href="/page1#section">Page 1 with hash</a>
                                        <a href="/page1?param=value#section">Page 1 with both</a>
                                        <a href="https://external.com">External</a>
"#;

const EMPTY_PAGE: &str = r#"
                                <html>
                                    <head>

                                    </head>
                                    <body>

                                    </body>
                                </html>
                            "#;

/// The page a server at `BASE` answers for `path` with `html` and `status`.
fn served(path: &str, html: String, status: u16) -> Page {
    let len = html.len() as u64;
    Page::from_fetch(to_url(&format!("{}{}", BASE, path)).unwrap(), html, Some(len), status)
}

fn all_enabled(rules: &[Rule]) -> RuleConfig {
    let mut config = RuleConfig::new();
    for rule in rules {
        config.enable_rule(rule.id);
    }
    config
}

#[test]
fn test_title_plugin_success() {
    let html = format!(
        "<html><head><title>Test Page</title></head><body>{}</body></html>",
        LINKS_BODY
    );
    let page = served("/success", html, 200);
    let plugin = TitlePlugin::new();
    let config = all_enabled(&plugin.available_rules());
    let results = plugin.analyze(&page, &config).unwrap();
    assert_eq!(results.len(), plugin.available_rules().len());
    for result in results {
        assert!(result.passed, "Rule {} should have passed", result.rule_id);
    }
}

#[test]
fn test_title_plugin_failure() {
    let page = served("/failure", EMPTY_PAGE.to_string(), 200);
    let plugin = TitlePlugin::new();
    let config = all_enabled(&plugin.available_rules());
    let results = plugin.analyze(&page, &config).unwrap();
    assert_eq!(results.len(), plugin.available_rules().len());
    for result in results {
        assert!(!result.passed, "Rule {} should have failed", result.rule_id);
    }
}

#[test]
fn test_meta_description_plugin_success() {
    let html = format!(
        r#"<html><head><title>Test Page</title>
        <meta name="description" content="This is a test page with a meta description">
        </head><body>{}</body></html>"#,
        LINKS_BODY
    );
    let page = served("/success", html, 200);
    let plugin = MetaDescriptionPlugin::new();
    let config = all_enabled(&plugin.available_rules());
    let results = plugin.analyze(&page, &config).unwrap();
    assert_eq!(results.len(), plugin.available_rules().len());
    for result in results {
        assert!(result.passed, "Rule {} should have passed", result.rule_id);
    }
}

#[test]
fn test_meta_description_plugin_failure() {
    let page = served("/failure", EMPTY_PAGE.to_string(), 200);
    let plugin = MetaDescriptionPlugin::new();
    let config = all_enabled(&plugin.available_rules());
    let results = plugin.analyze(&page, &config).unwrap();
    assert_eq!(results.len(), plugin.available_rules().len());
    for result in results {
        assert!(!result.passed, "Rule {} should have failed", result.rule_id);
    }
}

#[test]
fn test_image_plugin_success() {
    let html = format!(
        r#"<html><head><title>Test Page</title>
        <meta name="description" content="Test description">
        <link rel="canonical" href="{}/success">
        </head><body>
        <img src="https://example.com/image.jpg" alt="Test image" srcset="https://example.com/image.jpg 1x, https://example.com/image@2x.jpg 2x">
        {}</body></html>"#,
        BASE, LINKS_BODY
    );
    let page = served("/success", html, 200);
    let plugin = ImagePlugin::new();
    let config = all_enabled(&plugin.available_rules());
    let results = plugin.analyze(&page, &config).unwrap();
    assert_eq!(results.len(), plugin.available_rules().len());
    for result in results {
        assert!(
            result.passed,
            "Rule {} should have passed, Message: {}",
            result.rule_id, result.message
        );
    }
}

#[test]
fn test_image_plugin_failure() {
    let html = r#"
                                <html>
                                    <head>
                                    </head>
                                    <body>
                                        <img src="https://example.com/image.jpg" >
                                    </body>
                                </html>
                            "#;
    let page = served("/failure", html.to_string(), 200);
    let plugin = ImagePlugin::new();
    let config = all_enabled(&plugin.available_rules());
    let results = plugin.analyze(&page, &config).unwrap();
    assert_eq!(results.len(), plugin.available_rules().len());
    for result in results {
        assert!(
            !result.passed,
            "Rule {} should have failed, Message: {}",
            result.rule_id, result.message
        );
        assert_eq!(result.message, "1 images missing srcset");
    }
}

#[test]
fn test_request_plugin_success() {
    let html = format!(
        "<html><head><title>Test Page</title></head><body>{}</body></html>",
        LINKS_BODY
    );
    let page = served("/success", html, 200);
    let plugin = RequestPlugin::new();
    let config = all_enabled(&plugin.available_rules());
    let results = plugin.analyze(&page, &config).unwrap();
    assert_eq!(results.len(), plugin.available_rules().len());
    for result in results {
        assert!(result.passed, "Rule {} should have passed", result.rule_id);
    }
}

#[test]
fn test_request_plugin_failure() {
    // The fetch of `/redirect` was answered with a 301 to `/success`.
    let html = format!(
        "<html><head><title>Test Page</title></head><body>{}</body></html>",
        LINKS_BODY
    );
    let page = served("/redirect", html, 301);
    let plugin = RequestPlugin::new();
    let config = all_enabled(&plugin.available_rules());
    let results = plugin.analyze(&page, &config).unwrap();
    assert_eq!(results.len(), plugin.available_rules().len());
    for result in results {
        assert!(!result.passed, "Rule {} should have failed", result.rule_id);
        assert_eq!(result.message, "Page has redirects");
    }
}

#[test]
fn test_seo_basic_plugin_success() {
    let html = format!(
        r#"<html><head><title>Test Page</title>
        <meta name="description" content="Test description">
        <link rel="canonical" href="{}/success">
        </head><body>{}</body></html>"#,
        BASE, LINKS_BODY
    );
    let page = served("/success", html, 200);
    let plugin = SeoBasicPlugin::new();
    let config = all_enabled(&plugin.available_rules());
    let results = plugin.analyze(&page, &config).unwrap();
    assert_eq!(results.len(), plugin.available_rules().len());
    for result in results {
        assert!(
            result.passed,
            "Rule {} should have passed, Message: {}",
            result.rule_id, result.message
        );
    }
}

#[test]
fn test_seo_basic_plugin_failure() {
    let page = served("/failure", EMPTY_PAGE.to_string(), 200);
    let plugin = SeoBasicPlugin::new();
    let config = all_enabled(&plugin.available_rules());
    let results = plugin.analyze(&page, &config).unwrap();
    assert_eq!(results.len(), plugin.available_rules().len());
    for result in results {
        assert!(
            !result.passed,
            "Rule {} should have failed, Message: {}",
            result.rule_id, result.message
        );
    }
}

#[test]
fn test_axe_plugin_success() {
    let html = format!(
        r#"<html lang="en"><head><title>Test Page</title>
        <meta name="viewport" content="width=device-width, initial-scale=1.0" />
        </head><body>{}</body></html>"#,
        LINKS_BODY
    );
    let page = served("/success", html, 200);
    let plugin = AxePlugin::new();
    let config = all_enabled(&plugin.available_rules());
    let results = plugin.analyze(&page, &config).unwrap();
    assert_eq!(results.len(), plugin.available_rules().len());
    for result in results {
        assert!(result.passed, "Rule {} should have passed", result.rule_id);
    }
}

fn form_rule_outcome(html: &str) -> (bool, String) {
    let plugin = AxePlugin::new();
    let rules = plugin.available_rules();
    let mut config = RuleConfig::new();
    config.enable_rule("axe.form_field_labels");
    let page = Page::from_html(html.to_string());
    let results = plugin.analyze(&page, &config).unwrap();
    assert_eq!(results.len(), 1);
    assert!(rules.iter().any(|r| r.id == "axe.form_field_labels"));
    (results[0].passed, results[0].message.clone())
}

#[test]
fn form_fields_need_labels() {
    assert_eq!(
        form_rule_outcome("<html><body><label for='email'>Email</label><input id='email'></body></html>"),
        (true, "All form fields have labels".to_string())
    );
    assert_eq!(
        form_rule_outcome("<html><body><input id='email'></body></html>"),
        (false, "1 form fields missing labels".to_string())
    );
    assert_eq!(
        form_rule_outcome("<html><body><input><textarea id='t'></textarea><label for='t'>T</label></body></html>"),
        (false, "1 form fields missing labels".to_string())
    );
}

#[test]
fn invalid_aria_attributes_are_found() {
    let plugin = AxePlugin::new();
    let mut config = RuleConfig::new();
    config.enable_rule("axe.aria_valid_attr");
    let page = Page::from_html(r#"<html><body><div aria-label="x">a</div><span aria-bogus="y">b</span><p aria-nonsense="1" aria-hidden="true">c</p></body></html>"#.to_string());
    let results = plugin.analyze(&page, &config).unwrap();
    assert_eq!(results.len(), 1);
    assert!(!results[0].passed);
    assert_eq!(results[0].message, "Found 2 elements with invalid ARIA attributes");
    let page = Page::from_html(r#"<html><body><div aria-label="x">a</div></body></html>"#.to_string());
    let results = plugin.analyze(&page, &config).unwrap();
    assert!(results[0].passed);
    assert_eq!(results[0].message, "All ARIA attributes are valid");
}
