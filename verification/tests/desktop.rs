use serpeo::desktop::seo_analyzer::{
    analyze_html_content, analyze_link_stats, analyze_meta_tags, check_desktop_queries, try_analyze_html_content,
};
use serpeo::seo_plugins::utils::link_parser::to_url;

#[test]
fn desktop_selectors_are_accepted() {
    assert!(check_desktop_queries());
}

#[test]
fn desktop_meta_tags_split_keywords() {
    let html = r#"<html><head><title>Shop</title><meta name="description" content="Cheap things"><meta name="keywords" content=" a, b ,c,, "></head></html>"#;
    let meta = analyze_meta_tags(html).unwrap();
    assert_eq!(meta.title, "Shop");
    assert_eq!(meta.description, "Cheap things");
    assert_eq!(meta.keywords, vec!["a", "b", "c", "", ""]);
    let empty = analyze_meta_tags("<html></html>").unwrap();
    assert_eq!(empty.title, "");
    assert_eq!(empty.description, "");
    assert!(empty.keywords.is_empty());
}

#[test]
fn desktop_counts() {
    let html = r#"<html><head><meta name="viewport" content="width=device-width"></head><body>
        <h1>a</h1><h2>b</h2><h2>c</h2>
        <img src="x" alt="x"><img src="y">
        <a href="/inside">in</a><a href="https://example.com/page">same</a><a href="https://other.org">out</a><a>none</a>
        </body></html>"#;
    let base = to_url("https://example.com").unwrap();
    let (_meta, headings, images, links, mobile) = analyze_html_content(html, &base).unwrap();
    assert_eq!((headings.h1, headings.h2, headings.h3), (1, 2, 0));
    assert_eq!((images.total, images.with_alt, images.without_alt), (2, 1, 1));
    assert_eq!((links.internal, links.external), (2, 1));
    assert!(mobile);
    assert_eq!(analyze_link_stats(html, &base), (2, 1));
    let checked = try_analyze_html_content(html, &base).unwrap().unwrap();
    assert_eq!(checked.3.external, 1);
}
