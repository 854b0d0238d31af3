//! Counting what a page holds: headings by level, images with and without
//! alt text, internal and external links.
use vstd::prelude::*;
use crate::html_doc::{spec_document_html, spec_select};
use crate::web_url::WebUrl;
use crate::html_parser::page_parser::{
    links_classifiable, parser_heading_view, parser_image_view, parser_link_view, parser_links_of,
    LinkType, MetaTagInfo, PageParser,
};
use crate::seo_plugins::plugins::{count_where, lemma_count_le, lemma_count_step};
use crate::seo_plugins::utils::page::{headings_of, image_of, meta_of_document, page_queries_valid};

verus! {

/// How many headings of the first three levels a page has.
pub struct Headings {
    pub h1: i32,
    pub h2: i32,
    pub h3: i32,
}

/// How many images a page has, with and without alt text.
pub struct Images {
    pub total: i32,
    pub with_alt: i32,
    pub without_alt: i32,
}

/// How many links of a page stay on its host, and how many leave it.
pub struct Links {
    pub internal: i32,
    pub external: i32,
}

/// How fast a page loaded, and whether it adapts to small screens.
pub struct Performance {
    pub load_time: String,
    pub mobile_responsive: bool,
}

/// Why an analysis failed.
#[derive(Debug)]
pub enum SeoError {
    FetchError(String),
    UrlParseError(String),
    AnalysisError(String),
    LighthouseError(String),
}

/// How many headings with tag `tag` there are.
pub open spec fn count_tag(hs: Seq<(Seq<char>, Seq<char>)>, tag: Seq<char>) -> nat {
    count_where(hs, |h: (Seq<char>, Seq<char>)| h.0 == tag)
}

/// The image views of the `<img>` elements of `html`.
pub open spec fn images_in(html: Seq<char>) -> Seq<(Seq<char>, Option<Seq<char>>, Option<Seq<char>>)> {
    spec_select(html, "img"@).map_values(|e| image_of(e))
}

/// How many links of kind `t` there are.
pub open spec fn count_links(ls: Seq<(Seq<char>, Seq<char>, LinkType)>, t: LinkType) -> nat {
    count_where(ls, of_kind(t))
}

/// The link is of kind `t`.
pub open spec fn of_kind(t: LinkType) -> spec_fn((Seq<char>, Seq<char>, LinkType)) -> bool {
    |l: (Seq<char>, Seq<char>, LinkType)| l.2 == t
}

/// Counts the headings with tag `tag`.
fn count_headings(hs: &Vec<crate::html_parser::page_parser::Heading>, tag: &str) -> (res: usize)
    ensures
        res == count_tag(hs@.map_values(|h: crate::html_parser::page_parser::Heading| parser_heading_view(h)), tag@),
{
    let ghost v = hs@.map_values(|h: crate::html_parser::page_parser::Heading| parser_heading_view(h));
    let ghost p = |h: (Seq<char>, Seq<char>)| h.0 == tag@;
    let mut n: usize = 0;
    for i in 0..hs.len()
        invariant
            v == hs@.map_values(|h: crate::html_parser::page_parser::Heading| parser_heading_view(h)),
            p == (|h: (Seq<char>, Seq<char>)| h.0 == tag@),
            n == count_where(v.take(i as int), p),
            n <= i,
    {
        proof { lemma_count_step(v, p, i as int); }
        assert(v[i as int] == parser_heading_view(hs@[i as int]));
        if crate::text::str_eq(hs[i].tag.as_str(), tag) {
            n = n + 1;
        }
    }
    assert(v.take(hs@.len() as int) =~= v);
    n
}

/// Counts the links of kind `t`.
fn count_kind(ls: &Vec<crate::html_parser::page_parser::Links>, t: LinkType) -> (res: usize)
    ensures
        res == count_links(ls@.map_values(|l: crate::html_parser::page_parser::Links| parser_link_view(l)), t),
{
    let ghost v = ls@.map_values(|l: crate::html_parser::page_parser::Links| parser_link_view(l));
    let ghost p = of_kind(t);
    let mut n: usize = 0;
    for i in 0..ls.len()
        invariant
            v == ls@.map_values(|l: crate::html_parser::page_parser::Links| parser_link_view(l)),
            p == of_kind(t),
            n == count_where(v.take(i as int), p),
            n <= i,
    {
        proof { lemma_count_step(v, p, i as int); }
        assert(v[i as int] == parser_link_view(ls@[i as int]));
        if ls[i].link_type == t {
            n = n + 1;
        }
    }
    assert(v.take(ls@.len() as int) =~= v);
    assert(n == count_where(v, p));
    n
}

/// What `analyze_html_content` gives for the page `html` read at `base`.
pub open spec fn html_analysis(res: Result<(MetaTagInfo, Headings, Images, Links, bool), SeoError>, html: Seq<char>, base: Seq<char>) -> bool {
    res matches Ok((meta, headings, images, links, mobile)) && ({
        let doc = spec_document_html(html);
        let hs = headings_of(doc);
        let is = images_in(doc);
        let ls = parser_links_of(doc, base);
        &&& meta.wf()
        &&& meta.agrees(meta_of_document(doc))
        &&& headings.h1 == count_tag(hs, "h1"@) as i32
        &&& headings.h2 == count_tag(hs, "h2"@) as i32
        &&& headings.h3 == count_tag(hs, "h3"@) as i32
        &&& images.total == is.len() as i32
        &&& images.with_alt == count_where(is, |i: (Seq<char>, Option<Seq<char>>, Option<Seq<char>>)| i.1 is Some) as i32
        &&& images.without_alt == count_where(is, |i: (Seq<char>, Option<Seq<char>>, Option<Seq<char>>)| i.1 is None) as i32
        &&& links.internal == count_links(ls, LinkType::Internal) as i32
        &&& links.external == count_links(ls, LinkType::External) as i32
        &&& mobile == (meta_of_document(doc).viewport is Some)
    })
}

/// Counts what the page `html` (read at `base_url`, after `scraper` has
/// parsed and serialized it again) holds: its meta information, headings of
/// the first three levels, images with and without alt text, internal and
/// external links, and whether it declares a viewport.
pub fn analyze_html_content(html: &str, base_url: &WebUrl) -> (res: Result<(MetaTagInfo, Headings, Images, Links, bool), SeoError>)
    requires
        page_queries_valid(),
        links_classifiable(spec_document_html(html@), base_url@),
    ensures
        html_analysis(res, html@, base_url@),
{
    let mut parser = PageParser::from_url(base_url.duplicate());
    parser.set_document(html);
    let meta_tags = parser.extract_meta_tags();
    let hs = parser.extract_headings();
    let headings = Headings {
        h1: count_headings(&hs, "h1") as i32,
        h2: count_headings(&hs, "h2") as i32,
        h3: count_headings(&hs, "h3") as i32,
    };
    let imgs = parser.extract_images();
    let ghost doc = spec_document_html(html@);
    let ghost is = images_in(doc);
    let ghost pa = |i: (Seq<char>, Option<Seq<char>>, Option<Seq<char>>)| i.1 is Some;
    let ghost pn = |i: (Seq<char>, Option<Seq<char>>, Option<Seq<char>>)| i.1 is None;
    let mut with_alt: usize = 0;
    let mut without_alt: usize = 0;
    for i in 0..imgs.len()
        invariant
            imgs@.len() == is.len(),
            is == images_in(doc),
            doc == spec_document_html(html@),
            forall|j: int| 0 <= j < imgs@.len() ==> parser_image_view(#[trigger] imgs@[j]) == image_of(spec_select(doc, "img"@)[j]),
            pa == (|i: (Seq<char>, Option<Seq<char>>, Option<Seq<char>>)| i.1 is Some),
            pn == (|i: (Seq<char>, Option<Seq<char>>, Option<Seq<char>>)| i.1 is None),
            with_alt == count_where(is.take(i as int), pa),
            without_alt == count_where(is.take(i as int), pn),
            with_alt <= i,
            without_alt <= i,
    {
        proof {
            lemma_count_step(is, pa, i as int);
            lemma_count_step(is, pn, i as int);
        }
        assert(is[i as int] == image_of(spec_select(doc, "img"@)[i as int]));
        assert(parser_image_view(imgs@[i as int]) == is[i as int]);
        if imgs[i].alt.is_some() {
            with_alt = with_alt + 1;
        } else {
            without_alt = without_alt + 1;
        }
    }
    assert(is.take(imgs@.len() as int) =~= is);
    let images = Images { total: imgs.len() as i32, with_alt: with_alt as i32, without_alt: without_alt as i32 };
    let ls = parser.extract_links();
    let links = Links {
        internal: count_kind(&ls, LinkType::Internal) as i32,
        external: count_kind(&ls, LinkType::External) as i32,
    };
    let mobile = meta_tags.viewport.is_some();
    Ok((meta_tags, headings, images, links, mobile))
}

/// `analyze_html_content`, where the links of the page can be classified
/// (the URL has a host, or the page has no links); nothing otherwise.
pub fn try_analyze_html_content(html: &str, base_url: &WebUrl) -> (res: Option<Result<(MetaTagInfo, Headings, Images, Links, bool), SeoError>>)
    requires
        page_queries_valid(),
    ensures
        res is Some <==> links_classifiable(spec_document_html(html@), base_url@),
        res matches Some(r) ==> html_analysis(r, html@, base_url@),
{
    let mut parser = PageParser::from_url(base_url.duplicate());
    parser.set_document(html);
    if parser.links_classifiable() {
        Some(analyze_html_content(html, base_url))
    } else {
        None
    }
}

} // verus!
