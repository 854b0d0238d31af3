use serpeo::seo_analyzer::analyze_html::analyze_html_content;
use serpeo::seo_plugins::utils::link_parser::to_url;

#[test]
fn test_analyze_html_content() {
    let html = r#"
            <html>
                <head>
                    <title>Test Title</title>
                    <meta name="description" content="Test Description">
                    <meta name="viewport" content="width=device-width, initial-scale=1">
                </head>
                <body>
                    <h1>Heading 1</h1>
                    <h2>Heading 2</h2>
                    <h2>Another Heading 2</h2>
                    <h3>Heading 3</h3>
                    <img src="image1.jpg" alt="Image 1">
                    <img src="image2.jpg">
                    <img src="image3.jpg" alt="Image 3">
                    <a href="https://google.com">External Link</a>
                    <a href="/internal">Internal Link</a>
                </body>
            </html>
        "#;

    let base_url = to_url("https://example.com").unwrap();
    let result = analyze_html_content(html, &base_url).unwrap();

    let (meta_tags, headings, images, links, is_mobile_responsive) = result;

    assert_eq!(meta_tags.title, Some("Test Title".to_string()));
    assert_eq!(meta_tags.description, Some("Test Description".to_string()));
    assert!(is_mobile_responsive);

    assert_eq!(headings.h1, 1);
    assert_eq!(headings.h2, 2);
    assert_eq!(headings.h3, 1);

    assert_eq!(images.total, 3);
    assert_eq!(images.with_alt, 2);
    assert_eq!(images.without_alt, 1);

    assert_eq!(links.internal, 1);
    assert_eq!(links.external, 1);
}

#[test]
fn test_analyze_html_content_no_meta_tags() {
    let html = r#"
            <html>
                <head></head>
                <body>
                    <h1>Heading 1</h1>
                    <img src="image1.jpg">
                    <a href="/internal">Internal Link</a>
                </body>
            </html>
        "#;

    let base_url = to_url("https://example.com").unwrap();
    let result = analyze_html_content(html, &base_url).unwrap();

    let (meta_tags, headings, images, links, is_mobile_responsive) = result;

    assert_eq!(meta_tags.title, None);
    assert_eq!(meta_tags.description, None);
    assert!(!is_mobile_responsive);

    assert_eq!(headings.h1, 1);
    assert_eq!(headings.h2, 0);
    assert_eq!(headings.h3, 0);

    assert_eq!(images.total, 1);
    assert_eq!(images.with_alt, 0);
    assert_eq!(images.without_alt, 1);

    assert_eq!(links.internal, 1);
    assert_eq!(links.external, 0);
}

#[test]
fn test_analyze_html_content_no_images_or_links() {
    let html = r#"
            <html>
                <head>
                    <meta name="viewport" content="width=device-width, initial-scale=1">
                </head>
                <body>
                    <h1>Heading 1</h1>
                    <h2>Heading 2</h2>
                </body>
            </html>
        "#;

    let base_url = to_url("https://example.com").unwrap();
    let result = analyze_html_content(html, &base_url).unwrap();

    let (_meta_tags, headings, images, links, is_mobile_responsive) = result;

    assert!(is_mobile_responsive);

    assert_eq!(headings.h1, 1);
    assert_eq!(headings.h2, 1);
    assert_eq!(headings.h3, 0);

    assert_eq!(images.total, 0);
    assert_eq!(images.with_alt, 0);
    assert_eq!(images.without_alt, 0);

    assert_eq!(links.internal, 0);
    assert_eq!(links.external, 0);
}

#[test]
fn test_analyze_html_content_invalid_url() {
    let _html = r#"
            <html>
                <body>
                    <h1>Heading 1</h1>
                </body>
            </html>
        "#;

    let base_url = to_url("invalid-url");
    assert!(base_url.is_err());
}
