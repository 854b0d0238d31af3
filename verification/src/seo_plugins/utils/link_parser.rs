//! Resolving the `href` of a link against the URL of the page it is on.
use vstd::prelude::*;
use crate::text::{concat2, has_prefix, starts_with, str_eq};
use crate::web_url::{parse_url, spec_url_host, spec_url_join, spec_url_parse, spec_url_scheme, spec_url_path, WebUrl};

verus! {

/// Where a link leads, seen from the page it is on.
#[derive(Clone, Copy, Debug, PartialEq, Eq, Structural)]
pub enum LinkType {
    Internal,
    External,
    Mailto,
    Tel,
    Unknown,
}

/// A resolved link: its URL, the path of that URL, and its kind.
#[derive(Debug)]
pub struct Link {
    pub href: String,
    pub path: String,
    pub link_type: LinkType,
}

/// Why a link could not be resolved.
#[derive(Debug)]
pub enum LinkParseError {
    LinkParseError(String),
    UrlParseError(String),
}

/// The URL (serialized) that the link text `link` leads to from the page at
/// `base`: an absolute `http...` link is parsed on its own, any other is
/// joined to the base, and the base itself stands in when the join fails.
pub open spec fn link_target(link: Seq<char>, base: Seq<char>) -> Seq<char> {
    if has_prefix(link, "http"@) {
        spec_url_parse(link)->Ok_0
    } else {
        match spec_url_join(base, link) {
            Ok(u) => u,
            Err(_) => base,
        }
    }
}

/// The kind of the link to `target` from a page at `base`: internal when the
/// hosts agree, then by scheme `mailto` or `tel`, else external.
pub open spec fn link_type_of(target: Seq<char>, base: Seq<char>) -> LinkType {
    if spec_url_host(target) == Some(spec_url_host(base)->Some_0) {
        LinkType::Internal
    } else if spec_url_scheme(target) == "mailto"@ {
        LinkType::Mailto
    } else if spec_url_scheme(target) == "tel"@ {
        LinkType::Tel
    } else {
        LinkType::External
    }
}

/// The link can be resolved: an absolute `http...` link parses, and the base
/// has a host to compare with.
pub open spec fn link_resolvable(link: Seq<char>, base: Seq<char>) -> bool {
    &&& has_prefix(link, "http"@) ==> spec_url_parse(link) is Ok
    &&& spec_url_host(base) is Some
}

/// `res` is the link `link` resolved from a page at `base`.
pub open spec fn resolves_to(res: Link, link: Seq<char>, base: Seq<char>) -> bool {
    let target = link_target(link, base);
    &&& res.href@ == target
    &&& res.path@ == spec_url_path(target)
    &&& res.link_type == link_type_of(target, base)
}

/// Resolves `link` against the page URL `base`.
pub fn resolve_link(link: &str, base: &WebUrl) -> (res: Link)
    requires
        link_resolvable(link@, base@),
    ensures
        resolves_to(res, link@, base@),
{
    let target = if starts_with(link, "http") {
        match parse_url(link) {
            Ok(u) => u,
            Err(_) => base.duplicate(),
        }
    } else {
        match base.join(link) {
            Ok(u) => u,
            Err(_) => base.duplicate(),
        }
    };
    let base_host = match base.host_str() {
        Some(h) => h,
        None => String::new(),
    };
    let link_type = match target.host_str() {
        Some(h) if h == base_host => LinkType::Internal,
        _ => {
            let scheme = target.scheme();
            if str_eq(scheme.as_str(), "mailto") {
                LinkType::Mailto
            } else if str_eq(scheme.as_str(), "tel") {
                LinkType::Tel
            } else {
                LinkType::External
            }
        },
    };
    Link { href: target.as_string(), path: target.path(), link_type }
}

/// Resolves `link` against the page URL `base_url` given as text.
///
/// Fails with `LinkParseError` when `base_url` does not parse (carrying
/// "Failed to parse URL: " and the parser's message), and with
/// `UrlParseError` when the link cannot be resolved: an absolute `http...`
/// link that does not parse (the parser's message), or a base without a host
/// (the base).
pub fn parse_link(link: &str, base_url: &str) -> (res: Result<Link, LinkParseError>)
    ensures
        match spec_url_parse(base_url@) {
            Err(msg) => res matches Err(LinkParseError::LinkParseError(m)) && m@ == "Failed to parse URL: "@ + msg,
            Ok(base) => if link_resolvable(link@, base) {
                res matches Ok(l) && resolves_to(l, link@, base)
            } else if has_prefix(link@, "http"@) && spec_url_parse(link@) is Err {
                res matches Err(LinkParseError::UrlParseError(m)) && m@ == spec_url_parse(link@)->Err_0
            } else {
                res matches Err(LinkParseError::UrlParseError(m)) && m@ == base
            },
        },
{
    let base = match parse_url(base_url) {
        Ok(u) => u,
        Err(msg) => {
            return Err(LinkParseError::LinkParseError(concat2("Failed to parse URL: ", msg.as_str())));
        },
    };
    parse_link_from(link, &base)
}

/// Resolves `link` against the page URL `base`, failing with `UrlParseError`
/// where the link cannot be resolved (see `parse_link`).
pub fn parse_link_from(link: &str, base: &WebUrl) -> (res: Result<Link, LinkParseError>)
    ensures
        if link_resolvable(link@, base@) {
            res matches Ok(l) && resolves_to(l, link@, base@)
        } else if has_prefix(link@, "http"@) && spec_url_parse(link@) is Err {
            res matches Err(LinkParseError::UrlParseError(m)) && m@ == spec_url_parse(link@)->Err_0
        } else {
            res matches Err(LinkParseError::UrlParseError(m)) && m@ == base@
        },
{
    if starts_with(link, "http") {
        if let Err(msg) = parse_url(link) {
            return Err(LinkParseError::UrlParseError(msg));
        }
    }
    if base.host_str().is_none() {
        return Err(LinkParseError::UrlParseError(base.as_string()));
    }
    Ok(resolve_link(link, base))
}

/// The message of the error that resolving `link` against `base` fails
/// with, when it cannot be resolved.
pub open spec fn link_error_message(link: Seq<char>, base: Seq<char>) -> Seq<char> {
    if has_prefix(link, "http"@) && spec_url_parse(link) is Err {
        spec_url_parse(link)->Err_0
    } else {
        base
    }
}

/// Parses `input` as a URL, failing with `UrlParseError` and the parser's
/// message.
pub fn to_url(input: &str) -> (res: Result<WebUrl, LinkParseError>)
    ensures
        match spec_url_parse(input@) {
            Ok(u) => res matches Ok(w) && w@ == u,
            Err(m) => res matches Err(LinkParseError::UrlParseError(e)) && e@ == m,
        },
{
    match parse_url(input) {
        Ok(u) => Ok(u),
        Err(m) => Err(LinkParseError::UrlParseError(m)),
    }
}

} // verus!
