use serpeo::seo_plugins::utils::link_parser::{parse_link, to_url, LinkParseError, LinkType};

#[test]
fn test_parse_link() {
    let link = parse_link("https://www.google.com", "https://www.google.com").unwrap();
    assert_eq!(link.href, "https://www.google.com/");
    assert_eq!(link.path, "/");
    assert_eq!(link.link_type, LinkType::Internal);

    let link = parse_link("/sample", "http://localhost:3000").unwrap();
    assert_eq!(link.href, "http://localhost:3000/sample");
    assert_eq!(link.path, "/sample");
    assert_eq!(link.link_type, LinkType::Internal);
}

#[test]
fn test_parse_link_external() {
    let link = parse_link("https://www.google.com", "http://localhost:3000").unwrap();
    assert_eq!(link.href, "https://www.google.com/");
    assert_eq!(link.path, "/");
    assert_eq!(link.link_type, LinkType::External);
}

#[test]
fn test_parse_link_mailto() {
    let link = parse_link("mailto:test@example.com", "http://localhost:3000").unwrap();
    assert_eq!(link.href, "mailto:test@example.com");

    assert_eq!(link.link_type, LinkType::Mailto);
}

#[test]
fn test_parse_link_tel() {
    let link = parse_link("tel:1234567890", "http://localhost:3000").unwrap();
    assert_eq!(link.href, "tel:1234567890");
    assert_eq!(link.link_type, LinkType::Tel);
}

#[test]
fn parse_link_rejects_unparsable_base() {
    match parse_link("/a", "not a url") {
        Err(LinkParseError::LinkParseError(m)) => assert!(m.starts_with("Failed to parse URL: ")),
        _ => panic!("expected a base error"),
    }
}

#[test]
fn parse_link_rejects_unparsable_absolute_link() {
    match parse_link("http://[broken", "https://example.com") {
        Err(LinkParseError::UrlParseError(_)) => {}
        _ => panic!("expected a link error"),
    }
}

#[test]
fn parse_link_rejects_base_without_host() {
    match parse_link("/a", "mailto:someone@example.com") {
        Err(LinkParseError::UrlParseError(m)) => assert_eq!(m, "mailto:someone@example.com"),
        _ => panic!("expected a host error"),
    }
}

#[test]
fn parse_link_joins_relative_paths() {
    let link = parse_link("page/two", "https://example.com/one/").unwrap();
    assert_eq!(link.href, "https://example.com/one/page/two");
    assert_eq!(link.path, "/one/page/two");
    assert_eq!(link.link_type, LinkType::Internal);
}

#[test]
fn to_url_parses_and_fails() {
    assert_eq!(to_url("https://example.com").unwrap().as_str(), "https://example.com/");
    assert!(matches!(to_url("invalid-url"), Err(LinkParseError::UrlParseError(_))));
}
