//! A fetched (or given) page and what can be read off its HTML.
use vstd::prelude::*;
use crate::html_doc::{attr_of, element_view, elements_view, select_elements, selector_error,
    spec_select, spec_selector_error, spec_selector_parses, ElementData, ElementView};
use crate::text::{has_prefix, owned, starts_with, str_eq, strip_prefixes, trim_start_matches};
use crate::text_map::TextMap;
use crate::web_url::{parse_url, spec_url_parse, WebUrl};
use super::link_parser::{link_resolvable, parse_link_from, resolve_link, resolves_to, Link, LinkParseError};

verus! {

/// Why a page could not be read.
#[derive(Debug)]
pub enum PageError {
    UrlParseError(String),
    FetchError(String),
    DocumentNotSet(String),
    ConfigNotSet,
    ElementNotFound,
    SelectorParseError(String),
    LinkParseError(String),
}

/// The URL that stands in for a page without one.
pub const FALLBACK_URL: &'static str = "https://example.com";

/// The selectors that the page readers and rules use.
pub open spec fn page_selectors() -> Seq<Seq<char>> {
    seq!["title"@, "link"@, "meta"@, "img"@, "a"@, "h1"@, "h2"@, "h3"@, "h4"@, "h5"@, "h6"@,
        "html"@, "button"@, "input, select, textarea"@, "*"@, "[role]"@, "[id]"@,
        "frame, iframe"@, "[tabindex]"@]
}

/// The selectors that the page readers and rules use, and the fallback URL,
/// are all accepted by `scraper` and `url`.
pub open spec fn page_queries_valid() -> bool {
    &&& forall|j: int| 0 <= j < page_selectors().len() ==> spec_selector_parses(#[trigger] page_selectors()[j])
    &&& spec_url_parse(FALLBACK_URL@) is Ok
}

/// Each selector that the page readers and rules use is accepted.
pub proof fn lemma_page_queries()
    requires
        page_queries_valid(),
    ensures
        spec_selector_parses("title"@),
        spec_selector_parses("link"@),
        spec_selector_parses("meta"@),
        spec_selector_parses("img"@),
        spec_selector_parses("a"@),
        spec_selector_parses("h1"@),
        spec_selector_parses("h2"@),
        spec_selector_parses("h3"@),
        spec_selector_parses("h4"@),
        spec_selector_parses("h5"@),
        spec_selector_parses("h6"@),
        spec_selector_parses("html"@),
        spec_selector_parses("button"@),
        spec_selector_parses("input, select, textarea"@),
        spec_selector_parses("*"@),
        spec_selector_parses("[role]"@),
        spec_selector_parses("[id]"@),
        spec_selector_parses("frame, iframe"@),
        spec_selector_parses("[tabindex]"@),
        spec_url_parse(FALLBACK_URL@) is Ok,
{
    let s = page_selectors();
    assert(spec_selector_parses(s[0]) && spec_selector_parses(s[1]) && spec_selector_parses(s[2])
        && spec_selector_parses(s[3]) && spec_selector_parses(s[4]) && spec_selector_parses(s[5])
        && spec_selector_parses(s[6]) && spec_selector_parses(s[7]) && spec_selector_parses(s[8])
        && spec_selector_parses(s[9]) && spec_selector_parses(s[10]) && spec_selector_parses(s[11])
        && spec_selector_parses(s[12]) && spec_selector_parses(s[13]) && spec_selector_parses(s[14])
        && spec_selector_parses(s[15]) && spec_selector_parses(s[16]) && spec_selector_parses(s[17])
        && spec_selector_parses(s[18]));
}

/// Asks `scraper` and `url` whether `page_queries_valid` holds; the first
/// failure is reported as the error the page readers would give.
pub fn check_page_queries() -> (res: Result<(), PageError>)
    ensures
        res is Ok <==> page_queries_valid(),
{
    let sels: [&str; 19] = ["title", "link", "meta", "img", "a", "h1", "h2", "h3", "h4", "h5",
        "h6", "html", "button", "input, select, textarea", "*", "[role]", "[id]",
        "frame, iframe", "[tabindex]"];
    let ghost views = page_selectors();
    assert(sels@.map_values(|s: &str| s@) =~= views);
    let mut i: usize = 0;
    while i < 19
        invariant
            0 <= i <= 19,
            views == page_selectors(),
            sels@.map_values(|s: &str| s@) == views,
            forall|j: int| 0 <= j < i ==> spec_selector_parses(#[trigger] views[j]),
        decreases 19 - i,
    {
        assert(sels@.map_values(|s: &str| s@)[i as int] == views[i as int]);
        if let Some(e) = selector_error(sels[i]) {
            assert(!spec_selector_parses(views[i as int]));
            return Err(PageError::SelectorParseError(e));
        }
        i = i + 1;
    }
    match parse_url(FALLBACK_URL) {
        Ok(_) => {},
        Err(e) => { return Err(PageError::UrlParseError(e)); },
    }
    Ok(())
}

/// The meta information read from a page's `<head>`.
pub struct MetaTagInfo {
    pub title: Option<String>,
    pub description: Option<String>,
    pub keywords: Option<String>,
    pub robots: Option<String>,
    pub canonical: Option<String>,
    pub sitemap: Option<String>,
    pub favicon: Option<String>,
    pub viewport: Option<String>,
    pub generators: Vec<String>,
    pub webmanifest: Option<String>,
    pub og_tags: TextMap<String>,
    pub scripts: Vec<String>,
    pub styles: Vec<String>,
    pub twitter_tags: TextMap<String>,
    pub charset: Option<String>,
}

/// The view of `MetaTagInfo` that rules reason about.
pub struct MetaModel {
    pub title: Option<Seq<char>>,
    pub description: Option<Seq<char>>,
    pub keywords: Option<Seq<char>>,
    pub robots: Option<Seq<char>>,
    pub canonical: Option<Seq<char>>,
    pub sitemap: Option<Seq<char>>,
    pub favicon: Option<Seq<char>>,
    pub viewport: Option<Seq<char>>,
    pub generators: Seq<Seq<char>>,
    pub webmanifest: Option<Seq<char>>,
    pub og_tags: Map<Seq<char>, Seq<char>>,
    pub scripts: Seq<Seq<char>>,
    pub styles: Seq<Seq<char>>,
    pub twitter_tags: Map<Seq<char>, Seq<char>>,
    pub charset: Option<Seq<char>>,
}

/// The view of an optional text.
pub open spec fn opt_view(o: Option<String>) -> Option<Seq<char>> {
    match o {
        Some(s) => Some(s@),
        None => None,
    }
}

/// The views of a sequence of texts.
pub open spec fn texts_view(v: Seq<String>) -> Seq<Seq<char>> {
    v.map_values(|s: String| s@)
}

impl MetaTagInfo {
    /// The maps are well formed.
    pub open spec fn wf(&self) -> bool {
        self.og_tags.wf() && self.twitter_tags.wf()
    }

    /// The view of this meta information.
    pub open spec fn model(&self) -> MetaModel {
        MetaModel {
            title: opt_view(self.title),
            description: opt_view(self.description),
            keywords: opt_view(self.keywords),
            robots: opt_view(self.robots),
            canonical: opt_view(self.canonical),
            sitemap: opt_view(self.sitemap),
            favicon: opt_view(self.favicon),
            viewport: opt_view(self.viewport),
            generators: texts_view(self.generators@),
            webmanifest: opt_view(self.webmanifest),
            og_tags: self.og_tags.as_map().map_values(|v: String| v@),
            scripts: texts_view(self.scripts@),
            styles: texts_view(self.styles@),
            twitter_tags: self.twitter_tags.as_map().map_values(|v: String| v@),
            charset: opt_view(self.charset),
        }
    }

    /// No meta information at all.
    pub fn empty() -> (res: Self)
        ensures
            res.wf(),
            res.model() == empty_meta(),
    {
        let res = MetaTagInfo {
            title: None,
            description: None,
            keywords: None,
            robots: None,
            canonical: None,
            sitemap: None,
            favicon: None,
            viewport: None,
            generators: Vec::new(),
            webmanifest: None,
            og_tags: TextMap::new(),
            scripts: Vec::new(),
            styles: Vec::new(),
            twitter_tags: TextMap::new(),
            charset: None,
        };
        assert(texts_view(res.generators@) =~= Seq::<Seq<char>>::empty());
        assert(texts_view(res.scripts@) =~= Seq::<Seq<char>>::empty());
        assert(texts_view(res.styles@) =~= Seq::<Seq<char>>::empty());
        assert(res.og_tags.as_map().map_values(|v: String| v@) =~= Map::<Seq<char>, Seq<char>>::empty());
        assert(res.twitter_tags.as_map().map_values(|v: String| v@) =~= Map::<Seq<char>, Seq<char>>::empty());
        res
    }
}

/// No meta information at all.
pub open spec fn empty_meta() -> MetaModel {
    MetaModel {
        title: None,
        description: None,
        keywords: None,
        robots: None,
        canonical: None,
        sitemap: None,
        favicon: None,
        viewport: None,
        generators: Seq::empty(),
        webmanifest: None,
        og_tags: Map::empty(),
        scripts: Seq::empty(),
        styles: Seq::empty(),
        twitter_tags: Map::empty(),
        charset: None,
    }
}

/// Appends the value, if there is one.
pub open spec fn push_some(s: Seq<Seq<char>>, v: Option<Seq<char>>) -> Seq<Seq<char>> {
    match v {
        Some(x) => s.push(x),
        None => s,
    }
}

/// What one `<link>` element contributes, going by its `rel`.
pub open spec fn link_step(m: MetaModel, e: ElementView) -> MetaModel {
    match attr_of(e.0, "rel"@) {
        None => m,
        Some(rel) => if rel == "canonical"@ {
            MetaModel { canonical: attr_of(e.0, "href"@), ..m }
        } else if rel == "sitemap"@ {
            MetaModel { sitemap: attr_of(e.0, "href"@), ..m }
        } else if rel == "shortcut icon"@ || rel == "icon"@ {
            MetaModel { favicon: attr_of(e.0, "href"@), ..m }
        } else if rel == "manifest"@ {
            MetaModel { webmanifest: attr_of(e.0, "href"@), ..m }
        } else if rel == "script"@ {
            MetaModel { scripts: push_some(m.scripts, attr_of(e.0, "src"@)), ..m }
        } else if rel == "stylesheet"@ {
            MetaModel { styles: push_some(m.styles, attr_of(e.0, "href"@)), ..m }
        } else {
            m
        },
    }
}

/// What the `name` of one `<meta>` element contributes.
pub open spec fn meta_name_step(m: MetaModel, e: ElementView) -> MetaModel {
    match attr_of(e.0, "name"@) {
        None => m,
        Some(name) => if name == "description"@ {
            MetaModel { description: attr_of(e.0, "content"@), ..m }
        } else if name == "robots"@ {
            MetaModel { robots: attr_of(e.0, "content"@), ..m }
        } else if name == "keywords"@ {
            MetaModel { keywords: attr_of(e.0, "content"@), ..m }
        } else if name == "viewport"@ {
            MetaModel { viewport: attr_of(e.0, "content"@), ..m }
        } else if name == "generator"@ {
            MetaModel { generators: push_some(m.generators, attr_of(e.0, "content"@)), ..m }
        } else {
            m
        },
    }
}

/// What the `charset` of one `<meta>` element contributes.
pub open spec fn meta_charset_step(m: MetaModel, e: ElementView) -> MetaModel {
    match attr_of(e.0, "charset"@) {
        None => m,
        Some(c) => MetaModel { charset: Some(c), ..m },
    }
}

/// What the `property` of one `<meta>` element contributes: an Open Graph or
/// Twitter tag, keyed by the property without its leading `og:` or
/// `twitter:` prefixes.
pub open spec fn meta_property_step(m: MetaModel, e: ElementView) -> MetaModel {
    match attr_of(e.0, "property"@) {
        None => m,
        Some(p) => if has_prefix(p, "og:"@) {
            match attr_of(e.0, "content"@) {
                Some(v) => MetaModel { og_tags: m.og_tags.insert(strip_prefixes(p, "og:"@), v), ..m },
                None => m,
            }
        } else if has_prefix(p, "twitter:"@) {
            match attr_of(e.0, "content"@) {
                Some(v) => MetaModel { twitter_tags: m.twitter_tags.insert(strip_prefixes(p, "twitter:"@), v), ..m },
                None => m,
            }
        } else {
            m
        },
    }
}

/// What one `<meta>` element contributes.
pub open spec fn meta_step(m: MetaModel, e: ElementView) -> MetaModel {
    meta_property_step(meta_charset_step(meta_name_step(m, e), e), e)
}

/// The `<link>` elements, taken in order.
pub open spec fn fold_links(m: MetaModel, links: Seq<ElementView>) -> MetaModel
    decreases links.len(),
{
    if links.len() == 0 {
        m
    } else {
        link_step(fold_links(m, links.drop_last()), links.last())
    }
}

/// The `<meta>` elements, taken in order.
pub open spec fn fold_metas(m: MetaModel, metas: Seq<ElementView>) -> MetaModel
    decreases metas.len(),
{
    if metas.len() == 0 {
        m
    } else {
        meta_step(fold_metas(m, metas.drop_last()), metas.last())
    }
}

/// The meta information of a document whose `<title>`, `<link>` and `<meta>`
/// elements are the given ones: the title is the inner HTML of the first
/// `<title>`, and later elements override earlier ones.
pub open spec fn meta_of(titles: Seq<ElementView>, links: Seq<ElementView>, metas: Seq<ElementView>) -> MetaModel {
    let start = if titles.len() > 0 {
        MetaModel { title: Some(titles[0].1), ..empty_meta() }
    } else {
        empty_meta()
    };
    fold_metas(fold_links(start, links), metas)
}

/// The meta information of the document `html`.
pub open spec fn meta_of_document(html: Seq<char>) -> MetaModel {
    meta_of(spec_select(html, "title"@), spec_select(html, "link"@), spec_select(html, "meta"@))
}

/// The `<link>` element names a favicon: its `rel` is `icon` or
/// `shortcut icon`.
pub open spec fn is_icon_link(e: ElementView) -> bool {
    attr_of(e.0, "rel"@) == Some("icon"@) || attr_of(e.0, "rel"@) == Some("shortcut icon"@)
}

/// The position of the last favicon link among `links`.
pub open spec fn last_icon_link(links: Seq<ElementView>) -> Option<int>
    decreases links.len(),
{
    if links.len() == 0 {
        None
    } else if is_icon_link(links.last()) {
        Some(links.len() - 1)
    } else {
        last_icon_link(links.drop_last())
    }
}

/// The favicon after the `<link>` elements: the `href` of the last favicon
/// link, or what it was before when there is none.
proof fn lemma_fold_links_favicon(m: MetaModel, links: Seq<ElementView>)
    ensures
        fold_links(m, links).favicon == match last_icon_link(links) {
            Some(i) => attr_of(links[i].0, "href"@),
            None => m.favicon,
        },
        last_icon_link(links) matches Some(i) ==> 0 <= i < links.len() && is_icon_link(links[i])
            && forall|j: int| i < j < links.len() ==> !is_icon_link(#[trigger] links[j]),
        last_icon_link(links) is None ==> forall|j: int| 0 <= j < links.len() ==> !is_icon_link(#[trigger] links[j]),
    decreases links.len(),
{
    reveal_strlit("icon");
    reveal_strlit("shortcut icon");
    reveal_strlit("canonical");
    reveal_strlit("sitemap");
    if links.len() > 0 {
        let init = links.drop_last();
        lemma_fold_links_favicon(m, init);
        assert forall|j: int| 0 <= j < init.len() implies init[j] == links[j] by {}
        let e = links.last();
        if is_icon_link(e) {
            assert("icon"@.len() == 4 && "shortcut icon"@.len() == 13);
            assert("canonical"@.len() == 9 && "sitemap"@.len() == 7);
            let rel = attr_of(e.0, "rel"@)->Some_0;
            assert(rel.len() == 4 || rel.len() == 13);
            assert(rel != "canonical"@ && rel != "sitemap"@);
        }
    }
}

/// The `<meta>` elements never change the favicon.
proof fn lemma_fold_metas_favicon(m: MetaModel, metas: Seq<ElementView>)
    ensures
        fold_metas(m, metas).favicon == m.favicon,
    decreases metas.len(),
{
    if metas.len() > 0 {
        lemma_fold_metas_favicon(m, metas.drop_last());
    }
}

/// The favicon of a document is the `href` of its last `<link>` whose `rel`
/// is `icon` or `shortcut icon`, and there is none when no link has such a
/// `rel`.
pub proof fn law_favicon_is_last_icon_link(html: Seq<char>)
    ensures
        ({
            let links = spec_select(html, "link"@);
            &&& (forall|j: int| 0 <= j < links.len() ==> !is_icon_link(#[trigger] links[j]))
                ==> meta_of_document(html).favicon is None
            &&& forall|i: int| 0 <= i < links.len() && is_icon_link(#[trigger] links[i])
                && (forall|j: int| i < j < links.len() ==> !is_icon_link(#[trigger] links[j]))
                ==> meta_of_document(html).favicon == attr_of(links[i].0, "href"@)
        }),
{
    let titles = spec_select(html, "title"@);
    let links = spec_select(html, "link"@);
    let metas = spec_select(html, "meta"@);
    let start = if titles.len() > 0 {
        MetaModel { title: Some(titles[0].1), ..empty_meta() }
    } else {
        empty_meta()
    };
    lemma_fold_links_favicon(start, links);
    lemma_fold_metas_favicon(fold_links(start, links), metas);
    assert forall|i: int| 0 <= i < links.len() && is_icon_link(#[trigger] links[i])
        && (forall|j: int| i < j < links.len() ==> !is_icon_link(#[trigger] links[j]))
        implies meta_of_document(html).favicon == attr_of(links[i].0, "href"@) by {
        match last_icon_link(links) {
            Some(k) => {
                if k < i { assert(!is_icon_link(links[i])); }
                if k > i { assert(!is_icon_link(links[k])); }
            },
            None => { assert(!is_icon_link(links[i])); },
        }
    }
    if forall|j: int| 0 <= j < links.len() ==> !is_icon_link(#[trigger] links[j]) {
        if let Some(k) = last_icon_link(links) {
            assert(!is_icon_link(links[k]));
        }
    }
}

/// Applies what one `<link>` element contributes.
fn apply_link(m: &mut MetaTagInfo, e: &ElementData)
    requires
        old(m).wf(),
    ensures
        final(m).wf(),
        final(m).model() == link_step(old(m).model(), element_view(*e)),
{
    let rel = match e.attr("rel") {
        Some(r) => r,
        None => { return; },
    };
    let r = rel.as_str();
    if str_eq(r, "canonical") {
        m.canonical = e.attr("href");
    } else if str_eq(r, "sitemap") {
        m.sitemap = e.attr("href");
    } else if str_eq(r, "shortcut icon") || str_eq(r, "icon") {
        m.favicon = e.attr("href");
    } else if str_eq(r, "manifest") {
        m.webmanifest = e.attr("href");
    } else if str_eq(r, "script") {
        if let Some(src) = e.attr("src") {
            m.scripts.push(src);
        }
    } else if str_eq(r, "stylesheet") {
        if let Some(href) = e.attr("href") {
            m.styles.push(href);
        }
    }
    proof {
        assert(texts_view(m.scripts@) =~= link_step(old(m).model(), element_view(*e)).scripts);
        assert(texts_view(m.styles@) =~= link_step(old(m).model(), element_view(*e)).styles);
    }
}

/// Applies what one `<meta>` element contributes.
fn apply_meta(m: &mut MetaTagInfo, e: &ElementData)
    requires
        old(m).wf(),
    ensures
        final(m).wf(),
        final(m).model() == meta_step(old(m).model(), element_view(*e)),
{
    let ghost m0 = m.model();
    if let Some(name) = e.attr("name") {
        let n = name.as_str();
        if str_eq(n, "description") {
            m.description = e.attr("content");
        } else if str_eq(n, "robots") {
            m.robots = e.attr("content");
        } else if str_eq(n, "keywords") {
            m.keywords = e.attr("content");
        } else if str_eq(n, "viewport") {
            m.viewport = e.attr("content");
        } else if str_eq(n, "generator") {
            if let Some(content) = e.attr("content") {
                m.generators.push(content);
            }
        }
    }
    let ghost m1 = m.model();
    assert(texts_view(m.generators@) =~= meta_name_step(m0, element_view(*e)).generators);
    assert(m1 == meta_name_step(m0, element_view(*e)));
    if let Some(charset) = e.attr("charset") {
        m.charset = Some(charset);
    }
    let ghost m2 = m.model();
    assert(m2 == meta_charset_step(m1, element_view(*e)));
    if let Some(property) = e.attr("property") {
        let p = property.as_str();
        if starts_with(p, "og:") {
            if let Some(value) = e.attr("content") {
                let key = trim_start_matches(p, "og:");
                let ghost before = m.og_tags.as_map();
                let ghost k = key@;
                let ghost v = value@;
                m.og_tags.insert(key, value);
                assert(m.og_tags.as_map().map_values(|v: String| v@) =~= before.map_values(|v: String| v@).insert(k, v));
            }
        } else if starts_with(p, "twitter:") {
            if let Some(value) = e.attr("content") {
                let key = trim_start_matches(p, "twitter:");
                let ghost before = m.twitter_tags.as_map();
                let ghost k = key@;
                let ghost v = value@;
                m.twitter_tags.insert(key, value);
                assert(m.twitter_tags.as_map().map_values(|v: String| v@) =~= before.map_values(|v: String| v@).insert(k, v));
            }
        }
    }
}

/// The meta information read off `<title>`, `<link>` and `<meta>` elements.
pub fn meta_from_elements(titles: &Vec<ElementData>, links: &Vec<ElementData>, metas: &Vec<ElementData>) -> (res: MetaTagInfo)
    ensures
        res.wf(),
        res.model() == meta_of(elements_view(titles@), elements_view(links@), elements_view(metas@)),
{
    let mut m = MetaTagInfo::empty();
    if titles.len() > 0 {
        m.title = Some(titles[0].inner_html.clone());
    }
    let ghost start = m.model();
    let ghost lv = elements_view(links@);
    let ghost mv = elements_view(metas@);
    assert(lv.take(0) =~= Seq::<ElementView>::empty());
    for i in 0..links.len()
        invariant
            m.wf(),
            lv == elements_view(links@),
            m.model() == fold_links(start, lv.take(i as int)),
    {
        apply_link(&mut m, &links[i]);
        assert(lv.take(i + 1).drop_last() =~= lv.take(i as int));
    }
    assert(lv.take(links@.len() as int) =~= lv);
    let ghost after_links = m.model();
    assert(mv.take(0) =~= Seq::<ElementView>::empty());
    for i in 0..metas.len()
        invariant
            m.wf(),
            mv == elements_view(metas@),
            m.model() == fold_metas(after_links, mv.take(i as int)),
    {
        apply_meta(&mut m, &metas[i]);
        assert(mv.take(i + 1).drop_last() =~= mv.take(i as int));
    }
    assert(mv.take(metas@.len() as int) =~= mv);
    m
}

/// An image on a page.
#[derive(Debug)]
pub struct Image {
    pub src: String,
    pub alt: Option<String>,
    pub srcset: Option<String>,
}

/// A heading on a page: its tag (`h1` to `h6`) and inner HTML.
#[derive(Debug)]
pub struct Heading {
    pub tag: String,
    pub text: String,
}

/// The view of an image: source (empty when missing), alt text, srcset.
pub open spec fn image_view(i: Image) -> (Seq<char>, Option<Seq<char>>, Option<Seq<char>>) {
    (i.src@, opt_view(i.alt), opt_view(i.srcset))
}

/// The image that an `<img>` element describes.
pub open spec fn image_of(e: ElementView) -> (Seq<char>, Option<Seq<char>>, Option<Seq<char>>) {
    (
        match attr_of(e.0, "src"@) {
            Some(s) => s,
            None => Seq::empty(),
        },
        attr_of(e.0, "alt"@),
        attr_of(e.0, "srcset"@),
    )
}

/// The `href` values of the elements that have one, in order.
pub open spec fn hrefs_of(es: Seq<ElementView>) -> Seq<Seq<char>>
    decreases es.len(),
{
    if es.len() == 0 {
        Seq::empty()
    } else {
        let rest = hrefs_of(es.drop_last());
        match attr_of(es.last().0, "href"@) {
            Some(h) => rest.push(h),
            None => rest,
        }
    }
}

/// The headings of level `level` in the document `html`, as (tag, text).
pub open spec fn headings_at(html: Seq<char>, tag: Seq<char>) -> Seq<(Seq<char>, Seq<char>)> {
    spec_select(html, tag).map_values(|e: ElementView| (tag, e.1))
}

/// The headings of the document `html`: all `h1`, then all `h2`, and so on.
pub open spec fn headings_of(html: Seq<char>) -> Seq<(Seq<char>, Seq<char>)> {
    headings_at(html, "h1"@) + headings_at(html, "h2"@) + headings_at(html, "h3"@)
        + headings_at(html, "h4"@) + headings_at(html, "h5"@) + headings_at(html, "h6"@)
}

/// The view of a heading.
pub open spec fn heading_view(h: Heading) -> (Seq<char>, Seq<char>) {
    (h.tag@, h.text@)
}

/// A page: its URL (if known), its HTML, and what the fetch reported.
pub struct Page {
    url: Option<WebUrl>,
    html: String,
    content_length: Option<u64>,
    status_code: Option<u16>,
}

impl Page {
    /// The page's URL, if it has one.
    pub closed spec fn url_view(&self) -> Option<Seq<char>> {
        match self.url {
            Some(u) => Some(u@),
            None => None,
        }
    }

    /// The page's HTML.
    pub closed spec fn html_view(&self) -> Seq<char> {
        self.html@
    }

    /// The content length the server reported.
    pub closed spec fn content_length_view(&self) -> Option<u64> {
        self.content_length
    }

    /// The HTTP status the fetch ended with (the redirect status, when the
    /// fetch was redirected).
    pub closed spec fn status_view(&self) -> Option<u16> {
        self.status_code
    }

    /// The URL that links on the page are resolved against: the page's own,
    /// or the fallback.
    pub open spec fn base_view(&self) -> Seq<char> {
        match self.url_view() {
            Some(u) => u,
            None => spec_url_parse(FALLBACK_URL@)->Ok_0,
        }
    }

    /// A page with the given HTML and nothing else known.
    pub fn from_html(html: String) -> (res: Self)
        ensures
            res.url_view() is None,
            res.html_view() == html@,
            res.content_length_view() is None,
            res.status_view() is None,
    {
        Page { url: None, html, content_length: None, status_code: None }
    }

    /// A page as fetched from `url`. A status of zero is recorded as none.
    pub fn from_fetch(url: WebUrl, html: String, content_length: Option<u64>, status_code: u16) -> (res: Self)
        ensures
            res.url_view() == Some(url@),
            res.html_view() == html@,
            res.content_length_view() == content_length,
            res.status_view() == (if status_code == 0 { None::<u16> } else { Some(status_code) }),
    {
        Page {
            url: Some(url),
            html,
            content_length,
            status_code: if status_code == 0 { None } else { Some(status_code) },
        }
    }

    /// A copy of the page.
    pub fn duplicate(&self) -> (res: Self)
        ensures
            res.url_view() == self.url_view(),
            res.html_view() == self.html_view(),
            res.content_length_view() == self.content_length_view(),
            res.status_view() == self.status_view(),
    {
        Page {
            url: match &self.url {
                Some(u) => Some(u.duplicate()),
                None => None,
            },
            html: self.html.clone(),
            content_length: self.content_length,
            status_code: self.status_code,
        }
    }

    /// Sets the page's URL.
    pub fn set_url(&mut self, url: WebUrl)
        ensures
            final(self).url_view() == Some(url@),
            final(self).html_view() == old(self).html_view(),
            final(self).content_length_view() == old(self).content_length_view(),
            final(self).status_view() == old(self).status_view(),
    {
        self.url = Some(url);
    }

    /// The page's URL, or the fallback URL for a page without one.
    pub fn get_url(&self) -> (res: WebUrl)
        requires
            page_queries_valid(),
        ensures
            res@ == self.base_view(),
    {
        match &self.url {
            Some(u) => u.duplicate(),
            None => {
                proof { lemma_page_queries(); }
                let parsed = parse_url(FALLBACK_URL);
                parsed.unwrap()
            },
        }
    }

    /// The page's HTML.
    pub fn get_html(&self) -> (res: Option<String>)
        ensures
            res matches Some(h) && h@ == self.html_view(),
    {
        Some(self.html.clone())
    }

    /// The content length the server reported.
    pub fn get_content_length(&self) -> (res: Option<u64>)
        ensures
            res == self.content_length_view(),
    {
        self.content_length
    }

    /// The HTTP status the fetch ended with.
    pub fn get_status_code(&self) -> (res: Option<u16>)
        ensures
            res == self.status_view(),
    {
        self.status_code
    }

    /// Whether the fetch ended with a redirect status (300 to 399).
    pub fn get_redirected(&self) -> (res: bool)
        ensures
            res == (self.status_view() matches Some(c) && 300 <= c && c < 400),
    {
        match self.status_code {
            Some(c) => 300 <= c && c < 400,
            None => false,
        }
    }

    /// Replaces the page's HTML.
    pub fn set_content(&mut self, html: String)
        ensures
            final(self).html_view() == html@,
            final(self).url_view() == old(self).url_view(),
            final(self).content_length_view() == old(self).content_length_view(),
            final(self).status_view() == old(self).status_view(),
    {
        self.html = html;
    }

    /// The elements of the page that `selector` matches.
    pub fn select(&self, selector: &str) -> (res: Vec<ElementData>)
        requires
            spec_selector_parses(selector@),
        ensures
            elements_view(res@) == spec_select(self.html_view(), selector@),
    {
        select_elements(self.html.as_str(), selector)
    }

    /// The first element of the page that `selector` matches.
    pub fn get_element(&self, selector: &str) -> (res: Result<ElementData, PageError>)
        ensures
            match spec_selector_error(selector@) {
                Some(msg) => res matches Err(PageError::SelectorParseError(m)) && m@ == msg,
                None => if spec_select(self.html_view(), selector@).len() > 0 {
                    res matches Ok(e) && element_view(e) == spec_select(self.html_view(), selector@)[0]
                } else {
                    res matches Err(PageError::ElementNotFound)
                },
            },
    {
        if let Some(msg) = selector_error(selector) {
            return Err(PageError::SelectorParseError(msg));
        }
        let mut elements = select_elements(self.html.as_str(), selector);
        if elements.len() == 0 {
            return Err(PageError::ElementNotFound);
        }
        assert(elements_view(elements@)[0] == element_view(elements@[0]));
        Ok(elements.swap_remove(0))
    }

    /// The meta information of the page.
    pub fn extract_meta_tags(&self) -> (res: MetaTagInfo)
        requires
            page_queries_valid(),
        ensures
            res.wf(),
            res.model() == meta_of_document(self.html_view()),
    {
        proof { lemma_page_queries(); }
        let titles = self.select("title");
        let links = self.select("link");
        let metas = self.select("meta");
        meta_from_elements(&titles, &links, &metas)
    }

    /// The images of the page, in document order.
    pub fn extract_images(&self) -> (res: Vec<Image>)
        requires
            page_queries_valid(),
        ensures
            res@.len() == spec_select(self.html_view(), "img"@).len(),
            forall|i: int| 0 <= i < res@.len() ==> image_view(#[trigger] res@[i]) == image_of(spec_select(self.html_view(), "img"@)[i]),
    {
        proof { lemma_page_queries(); }
        let imgs = self.select("img");
        let mut res: Vec<Image> = Vec::new();
        for i in 0..imgs.len()
            invariant
                elements_view(imgs@) == spec_select(self.html_view(), "img"@),
                res@.len() == i,
                forall|j: int| 0 <= j < i ==> image_view(#[trigger] res@[j]) == image_of(elements_view(imgs@)[j]),
        {
            let e = &imgs[i];
            let src = match e.attr("src") {
                Some(s) => s,
                None => String::new(),
            };
            res.push(Image { src, alt: e.attr("alt"), srcset: e.attr("srcset") });
            assert(elements_view(imgs@)[i as int] == element_view(imgs@[i as int]));
        }
        res
    }

    /// The headings with tag `tag`, appended to `out`.
    fn push_headings(&self, tag: &str, out: &mut Vec<Heading>)
        requires
            spec_selector_parses(tag@),
        ensures
            final(out)@.map_values(|h: Heading| heading_view(h)) == old(out)@.map_values(|h: Heading| heading_view(h)) + headings_at(self.html_view(), tag@),
    {
        let found = self.select(tag);
        let ghost start = old(out)@.map_values(|h: Heading| heading_view(h));
        let ghost want = headings_at(self.html_view(), tag@);
        for i in 0..found.len()
            invariant
                elements_view(found@) == spec_select(self.html_view(), tag@),
                want == headings_at(self.html_view(), tag@),
                want.len() == found@.len(),
                out@.map_values(|h: Heading| heading_view(h)) == start + want.take(i as int),
        {
            assert(elements_view(found@)[i as int] == element_view(found@[i as int]));
            let ghost prev = out@;
            let h = Heading { tag: owned(tag), text: found[i].inner_html.clone() };
            assert(heading_view(h) == want[i as int]);
            out.push(h);
            assert(out@ == prev.push(h));
            assert(out@.map_values(|h: Heading| heading_view(h)) =~= prev.map_values(|h: Heading| heading_view(h)).push(heading_view(h)));
            assert(want.take(i + 1) =~= want.take(i as int).push(want[i as int]));
            assert(out@.map_values(|h: Heading| heading_view(h)) =~= start + want.take(i + 1));
        }
        assert(want.take(found@.len() as int) =~= want);
    }

    /// The headings of the page: all `h1`, then all `h2`, and so on to `h6`.
    pub fn extract_headings(&self) -> (res: Vec<Heading>)
        requires
            page_queries_valid(),
        ensures
            res@.map_values(|h: Heading| heading_view(h)) == headings_of(self.html_view()),
    {
        proof { lemma_page_queries(); }
        let mut res: Vec<Heading> = Vec::new();
        assert(res@.map_values(|h: Heading| heading_view(h)) =~= Seq::<(Seq<char>, Seq<char>)>::empty());
        self.push_headings("h1", &mut res);
        self.push_headings("h2", &mut res);
        self.push_headings("h3", &mut res);
        self.push_headings("h4", &mut res);
        self.push_headings("h5", &mut res);
        self.push_headings("h6", &mut res);
        let ghost h = self.html_view();
        assert(Seq::<(Seq<char>, Seq<char>)>::empty() + headings_at(h, "h1"@) =~= headings_at(h, "h1"@));
        res
    }

    /// The links of the page: each `<a>` with an `href`, resolved against the
    /// page's URL (or the fallback). Fails with `LinkParseError` when an
    /// `href` cannot be resolved (see `link_resolvable`).
    pub fn extract_links(&self) -> (res: Result<Vec<Link>, PageError>)
        requires
            page_queries_valid(),
        ensures
            ({
                let hrefs = hrefs_of(spec_select(self.html_view(), "a"@));
                match res {
                    Ok(links) => {
                        &&& forall|i: int| 0 <= i < hrefs.len() ==> link_resolvable(#[trigger] hrefs[i], self.base_view())
                        &&& links@.len() == hrefs.len()
                        &&& forall|i: int| 0 <= i < hrefs.len() ==> resolves_to(#[trigger] links@[i], hrefs[i], self.base_view())
                    },
                    Err(e) => (e matches PageError::LinkParseError(_)) && exists|i: int| 0 <= i < hrefs.len() && !link_resolvable(#[trigger] hrefs[i], self.base_view()),
                }
            }),
    {
        proof { lemma_page_queries(); }
        let base = self.get_url();
        let anchors = self.select("a");
        let ghost av = elements_view(anchors@);
        let mut links: Vec<Link> = Vec::new();
        assert(av.take(0) =~= Seq::<ElementView>::empty());
        let ghost mut hs: Seq<Seq<char>> = Seq::empty();
        for i in 0..anchors.len()
            invariant
                av == elements_view(anchors@),
                av == spec_select(self.html_view(), "a"@),
                base@ == self.base_view(),
                hs == hrefs_of(av.take(i as int)),
                links@.len() == hs.len(),
                forall|j: int| 0 <= j < hs.len() ==> link_resolvable(#[trigger] hs[j], base@),
                forall|j: int| 0 <= j < hs.len() ==> resolves_to(#[trigger] links@[j], hs[j], base@),
        {
            assert(av.take(i + 1).drop_last() =~= av.take(i as int));
            assert(av.take(i + 1).last() == av[i as int]);
            assert(av[i as int] == element_view(anchors@[i as int]));
            if let Some(href) = anchors[i].attr("href") {
                assert(hrefs_of(av.take(i + 1)) == hs.push(href@));
                match parse_link_from(href.as_str(), &base) {
                    Ok(link) => {
                        links.push(link);
                        proof { hs = hs.push(href@); }
                    },
                    Err(e) => {
                        proof {
                            let hs1 = hrefs_of(av.take(i + 1));
                            lemma_hrefs_prefix(av, i + 1);
                            assert(hs1 == hs.push(href@));
                            assert(hs1[hs1.len() - 1] == href@);
                            assert(hs1.is_prefix_of(hrefs_of(av)));
                            assert(hs1[hs1.len() - 1] == hrefs_of(av)[hs1.len() - 1]);
                        }
                        return Err(PageError::LinkParseError(link_error_text(e)));
                    },
                }
            } else {
                assert(hrefs_of(av.take(i + 1)) == hs);
            }
        }
        assert(av.take(anchors@.len() as int) =~= av);
        Ok(links)
    }
}

/// The `href`s of a prefix of the elements are a prefix of all the `href`s.
pub proof fn lemma_hrefs_prefix(es: Seq<ElementView>, n: int)
    requires
        0 <= n <= es.len(),
    ensures
        hrefs_of(es.take(n)).is_prefix_of(hrefs_of(es)),
    decreases es.len() - n,
{
    if n < es.len() {
        lemma_hrefs_prefix(es, n + 1);
        assert(es.take(n + 1).drop_last() =~= es.take(n));
    } else {
        assert(es.take(n) =~= es);
    }
}

/// The text of a link error.
pub fn link_error_text(e: LinkParseError) -> (res: String)
    ensures
        match e {
            LinkParseError::LinkParseError(m) => res@ == m@,
            LinkParseError::UrlParseError(m) => res@ == m@,
        },
{
    match e {
        LinkParseError::LinkParseError(m) => m,
        LinkParseError::UrlParseError(m) => m,
    }
}

} // verus!
