//! A page parser bound to the URL of the page.
use vstd::prelude::*;
use crate::html_doc::{document_html, elements_view, element_view, spec_document_html, spec_select, ElementView};
use crate::text::{owned, to_chars};
use crate::text_map::TextMap;
use crate::web_url::{spec_url_host, spec_url_join, spec_url_parse, spec_url_path, WebUrl};
use crate::seo_plugins::utils::config::strings_view;
use crate::seo_plugins::utils::link_parser::to_url;
use crate::seo_plugins::utils::page::{
    heading_view, headings_of, hrefs_of, image_of, image_view, lemma_page_queries, meta_of_document,
    opt_view, page_queries_valid, texts_view, MetaModel, Page,
};

verus! {

/// Why a page could not be read.
#[derive(Debug)]
pub enum PageParserError {
    FetchError(String),
    HtmlParseError(String),
    LighthouseError(String),
    UrlParseError(String),
    DocumentNotSet(String),
}

/// The meta information read from a page's `<head>`.
pub struct MetaTagInfo {
    pub title: Option<String>,
    pub description: Option<String>,
    pub keywords: Option<String>,
    pub robots: Option<String>,
    pub canonical: Option<String>,
    pub sitemap: Option<String>,
    pub favicon: Option<String>,
    pub viewport: Option<String>,
    pub generators: Vec<String>,
    pub webmanifest: Option<String>,
    pub og_tags: TextMap<String>,
    pub scripts: Vec<String>,
    pub styles: Vec<String>,
    pub twitter_tags: TextMap<String>,
}

/// A heading: its tag (`h1` to `h6`) and inner HTML.
pub struct Heading {
    pub tag: String,
    pub text: String,
}

/// An image: its source (empty when missing), alt text and srcset.
pub struct Image {
    pub src: String,
    pub alt: Option<String>,
    pub srcset: Option<String>,
}

/// Whether a link stays on the page's host.
#[derive(Clone, Copy, Debug, PartialEq, Eq, Structural)]
pub enum LinkType {
    Internal,
    External,
}

/// A link on a page: where it leads, the path of that URL, and its kind.
pub struct Links {
    pub href: String,
    pub path: String,
    pub link_type: LinkType,
}

/// How fast a page loaded, and whether it adapts to small screens.
pub struct Performance {
    pub load_time: String,
    pub mobile_responsive: bool,
}

/// The URL of a page and its path.
pub struct BaseInfo {
    pub base_url: String,
    pub path: String,
}

/// Everything read from a page.
pub struct PageAnalysis {
    pub meta_tags: MetaTagInfo,
    pub headings: Vec<Heading>,
    pub images: Vec<Image>,
    pub links: Vec<Links>,
    pub base_info: BaseInfo,
}

/// `s` without the `/` characters at its end.
pub open spec fn trim_trailing_slashes(s: Seq<char>) -> Seq<char>
    decreases s.len(),
{
    if s.len() > 0 && s.last() == '/' {
        trim_trailing_slashes(s.drop_last())
    } else {
        s
    }
}

/// The URL without the slashes at its end.
pub fn normalize_url(url: &str) -> (res: String)
    ensures
        res@ == trim_trailing_slashes(url@),
{
    let cs = to_chars(url);
    let mut n: usize = cs.len();
    assert(url@.take(n as int) =~= url@);
    while n > 0 && cs[n - 1] == '/'
        invariant
            cs@ == url@,
            0 <= n <= cs@.len(),
            trim_trailing_slashes(url@) == trim_trailing_slashes(url@.take(n as int)),
        decreases n,
    {
        assert(url@.take(n as int).drop_last() =~= url@.take(n - 1));
        n = n - 1;
    }
    let r = url.substring_char(0, n);
    assert(r@ =~= url@.take(n as int));
    r.to_owned()
}

impl MetaTagInfo {
    /// The maps are well formed.
    pub open spec fn wf(&self) -> bool {
        self.og_tags.wf() && self.twitter_tags.wf()
    }

    /// This information agrees with `m` on every field it has.
    pub open spec fn agrees(&self, m: MetaModel) -> bool {
        &&& opt_view(self.title) == m.title
        &&& opt_view(self.description) == m.description
        &&& opt_view(self.keywords) == m.keywords
        &&& opt_view(self.robots) == m.robots
        &&& opt_view(self.canonical) == m.canonical
        &&& opt_view(self.sitemap) == m.sitemap
        &&& opt_view(self.favicon) == m.favicon
        &&& opt_view(self.viewport) == m.viewport
        &&& texts_view(self.generators@) == m.generators
        &&& opt_view(self.webmanifest) == m.webmanifest
        &&& self.og_tags.as_map().map_values(|v: String| v@) == m.og_tags
        &&& texts_view(self.scripts@) == m.scripts
        &&& texts_view(self.styles@) == m.styles
        &&& self.twitter_tags.as_map().map_values(|v: String| v@) == m.twitter_tags
    }
}

/// The view of a heading.
pub open spec fn parser_heading_view(h: Heading) -> (Seq<char>, Seq<char>) {
    (h.tag@, h.text@)
}

/// The view of an image.
pub open spec fn parser_image_view(i: Image) -> (Seq<char>, Option<Seq<char>>, Option<Seq<char>>) {
    (i.src@, opt_view(i.alt), opt_view(i.srcset))
}

/// The view of a link.
pub open spec fn parser_link_view(l: Links) -> (Seq<char>, Seq<char>, LinkType) {
    (l.href@, l.path@, l.link_type)
}

/// The link `href` on the page at `base`: joined to the base (the base
/// itself when the join fails), the path of the result, and whether its host
/// is the base's.
pub open spec fn parser_link_of(href: Seq<char>, base: Seq<char>) -> (Seq<char>, Seq<char>, LinkType) {
    let url = match spec_url_join(base, href) {
        Ok(u) => u,
        Err(_) => base,
    };
    (url, spec_url_path(url), if spec_url_host(url) == Some(spec_url_host(base)->Some_0) { LinkType::Internal } else { LinkType::External })
}

/// The links on the document `html` read at `base`, in order.
pub open spec fn parser_links_of(html: Seq<char>, base: Seq<char>) -> Seq<(Seq<char>, Seq<char>, LinkType)> {
    hrefs_of(spec_select(html, "a"@)).map_values(|h: Seq<char>| parser_link_of(h, base))
}

/// Links can be classified: the base has a host, or the page has no links.
pub open spec fn links_classifiable(html: Seq<char>, base: Seq<char>) -> bool {
    spec_url_host(base) is Some || hrefs_of(spec_select(html, "a"@)).len() == 0
}

/// Reads the pages of one URL.
pub struct PageParser {
    href: String,
    path: String,
    base_url: WebUrl,
    html_content: Option<String>,
}

impl PageParser {
    /// The URL of the page.
    pub closed spec fn base(&self) -> Seq<char> {
        self.base_url@
    }

    /// The page's HTML, once set.
    pub closed spec fn content(&self) -> Option<Seq<char>> {
        match self.html_content {
            Some(h) => Some(h@),
            None => None,
        }
    }

    /// The URL without trailing slashes.
    pub closed spec fn href_view(&self) -> Seq<char> {
        self.href@
    }

    /// The path of the URL.
    pub closed spec fn path_view(&self) -> Seq<char> {
        self.path@
    }

    /// A parser for the page at `base_url`, without content yet.
    pub fn from_url(base_url: WebUrl) -> (res: Self)
        ensures
            res.base() == base_url@,
            res.content() is None,
            res.href_view() == trim_trailing_slashes(base_url@),
            res.path_view() == spec_url_path(base_url@),
    {
        let path = base_url.path();
        let href = normalize_url(base_url.as_str());
        PageParser { href, path, base_url, html_content: None }
    }

    /// A parser for the page at `base_url`; fails with `UrlParseError` when
    /// the URL does not parse.
    pub fn new(base_url: &str) -> (res: Result<Self, PageParserError>)
        ensures
            match spec_url_parse(base_url@) {
                Ok(u) => res matches Ok(p) && p.base() == u && p.content() is None
                    && p.href_view() == trim_trailing_slashes(u) && p.path_view() == spec_url_path(u),
                Err(m) => res matches Err(PageParserError::UrlParseError(e)) && e@ == m,
            },
    {
        match to_url(base_url) {
            Ok(u) => Ok(Self::from_url(u)),
            Err(crate::seo_plugins::utils::link_parser::LinkParseError::UrlParseError(m)) => Err(PageParserError::UrlParseError(m)),
            Err(crate::seo_plugins::utils::link_parser::LinkParseError::LinkParseError(m)) => Err(PageParserError::UrlParseError(m)),
        }
    }

    /// The URL without trailing slashes.
    pub fn get_href(&self) -> (res: String)
        ensures
            res@ == self.href_view(),
    {
        self.href.clone()
    }

    /// The path of the URL.
    pub fn get_path(&self) -> (res: String)
        ensures
            res@ == self.path_view(),
    {
        self.path.clone()
    }

    /// Sets the page's HTML.
    pub fn set_content(&mut self, html: String)
        ensures
            final(self).content() == Some(html@),
            final(self).base() == old(self).base(),
            final(self).href_view() == old(self).href_view(),
            final(self).path_view() == old(self).path_view(),
    {
        self.html_content = Some(html);
    }

    /// Sets the page's HTML to the document parsed from `html`, serialized
    /// again.
    pub fn set_document(&mut self, html: &str)
        ensures
            final(self).content() == Some(spec_document_html(html@)),
            final(self).base() == old(self).base(),
            final(self).href_view() == old(self).href_view(),
            final(self).path_view() == old(self).path_view(),
    {
        self.html_content = Some(document_html(html));
    }

    /// The page's HTML as a page of the plugins.
    fn page(&self) -> (res: Page)
        requires
            self.content() is Some,
        ensures
            res.html_view() == self.content()->Some_0,
    {
        match &self.html_content {
            Some(h) => Page::from_html(h.clone()),
            None => Page::from_html(String::new()),
        }
    }

    /// The URL and path of the page.
    pub fn extract_base(&self) -> (res: BaseInfo)
        ensures
            res.base_url@ == self.base(),
            res.path@ == self.path_view(),
    {
        BaseInfo { base_url: self.base_url.as_string(), path: self.path.clone() }
    }

    /// The meta information of the page.
    pub fn extract_meta_tags(&self) -> (res: MetaTagInfo)
        requires
            self.content() is Some,
            page_queries_valid(),
        ensures
            res.wf(),
            res.agrees(meta_of_document(self.content()->Some_0)),
    {
        let m = self.page().extract_meta_tags();
        MetaTagInfo {
            title: m.title,
            description: m.description,
            keywords: m.keywords,
            robots: m.robots,
            canonical: m.canonical,
            sitemap: m.sitemap,
            favicon: m.favicon,
            viewport: m.viewport,
            generators: m.generators,
            webmanifest: m.webmanifest,
            og_tags: m.og_tags,
            scripts: m.scripts,
            styles: m.styles,
            twitter_tags: m.twitter_tags,
        }
    }

    /// The headings of the page: all `h1`, then all `h2`, and so on to `h6`.
    pub fn extract_headings(&self) -> (res: Vec<Heading>)
        requires
            self.content() is Some,
            page_queries_valid(),
        ensures
            res@.map_values(|h: Heading| parser_heading_view(h)) == headings_of(self.content()->Some_0),
    {
        let hs = self.page().extract_headings();
        let ghost want = hs@.map_values(|h: crate::seo_plugins::utils::page::Heading| heading_view(h));
        let mut out: Vec<Heading> = Vec::new();
        for i in 0..hs.len()
            invariant
                want == hs@.map_values(|h: crate::seo_plugins::utils::page::Heading| heading_view(h)),
                out@.map_values(|h: Heading| parser_heading_view(h)) == want.take(i as int),
        {
            let ghost prev = out@;
            let h = Heading { tag: hs[i].tag.clone(), text: hs[i].text.clone() };
            out.push(h);
            assert(out@.map_values(|h: Heading| parser_heading_view(h)) =~= prev.map_values(|h: Heading| parser_heading_view(h)).push(parser_heading_view(h)));
            assert(want.take(i + 1) =~= want.take(i as int).push(want[i as int]));
        }
        assert(want.take(hs@.len() as int) =~= want);
        out
    }

    /// The images of the page, in document order.
    pub fn extract_images(&self) -> (res: Vec<Image>)
        requires
            self.content() is Some,
            page_queries_valid(),
        ensures
            res@.len() == spec_select(self.content()->Some_0, "img"@).len(),
            forall|i: int| 0 <= i < res@.len() ==> parser_image_view(#[trigger] res@[i]) == image_of(spec_select(self.content()->Some_0, "img"@)[i]),
    {
        let imgs = self.page().extract_images();
        let mut out: Vec<Image> = Vec::new();
        for i in 0..imgs.len()
            invariant
                out@.len() == i,
                forall|j: int| 0 <= j < i ==> parser_image_view(#[trigger] out@[j]) == image_view(imgs@[j]),
        {
            out.push(Image { src: imgs[i].src.clone(), alt: imgs[i].alt.clone(), srcset: imgs[i].srcset.clone() });
        }
        out
    }

    /// The links of the page: each `<a>` with an `href`, joined to the
    /// page's URL.
    pub fn extract_links(&self) -> (res: Vec<Links>)
        requires
            self.content() is Some,
            page_queries_valid(),
            links_classifiable(self.content()->Some_0, self.base()),
        ensures
            res@.map_values(|l: Links| parser_link_view(l)) == parser_links_of(self.content()->Some_0, self.base()),
    {
        proof { lemma_page_queries(); }
        let page = self.page();
        let anchors = page.select("a");
        let ghost av = elements_view(anchors@);
        let ghost html = self.content()->Some_0;
        let ghost want = parser_links_of(html, self.base());
        let mut out: Vec<Links> = Vec::new();
        assert(av.take(0) =~= Seq::<ElementView>::empty());
        for i in 0..anchors.len()
            invariant
                av == elements_view(anchors@),
                av == spec_select(html, "a"@),
                html == self.content()->Some_0,
                links_classifiable(html, self.base()),
                out@.map_values(|l: Links| parser_link_view(l)) == hrefs_of(av.take(i as int)).map_values(|h: Seq<char>| parser_link_of(h, self.base())),
        {
            assert(av.take(i + 1).drop_last() =~= av.take(i as int));
            assert(av.take(i + 1).last() == av[i as int]);
            assert(av[i as int] == element_view(anchors@[i as int]));
            let ghost prev = out@;
            if let Some(href) = anchors[i].attr("href") {
                proof {
                    crate::seo_plugins::utils::page::lemma_hrefs_prefix(av, i + 1);
                    assert(hrefs_of(av.take(i + 1)).len() > 0);
                    if hrefs_of(av).len() == 0 {
                        assert(hrefs_of(av.take(i + 1)).len() <= hrefs_of(av).len());
                    }
                }
                let url = match self.base_url.join(href.as_str()) {
                    Ok(u) => u,
                    Err(_) => self.base_url.duplicate(),
                };
                let base_host = self.base_url.host_str();
                let link_type = match (url.host_str(), base_host) {
                    (Some(h), Some(b)) => if crate::text::str_eq(h.as_str(), b.as_str()) { LinkType::Internal } else { LinkType::External },
                    _ => LinkType::External,
                };
                let l = Links { href: url.as_string(), path: url.path(), link_type };
                out.push(l);
                assert(hrefs_of(av.take(i + 1)) == hrefs_of(av.take(i as int)).push(href@));
                assert(out@.map_values(|l: Links| parser_link_view(l)) =~= prev.map_values(|l: Links| parser_link_view(l)).push(parser_link_view(l)));
                assert(hrefs_of(av.take(i + 1)).map_values(|h: Seq<char>| parser_link_of(h, self.base()))
                    =~= hrefs_of(av.take(i as int)).map_values(|h: Seq<char>| parser_link_of(h, self.base())).push(parser_link_of(href@, self.base())));
            } else {
                assert(hrefs_of(av.take(i + 1)) == hrefs_of(av.take(i as int)));
            }
        }
        assert(av.take(anchors@.len() as int) =~= av);
        out
    }

    /// Whether the links of the page can be classified: the URL has a host,
    /// or the page has no links.
    pub fn links_classifiable(&self) -> (res: bool)
        requires
            self.content() is Some,
            page_queries_valid(),
        ensures
            res == links_classifiable(self.content()->Some_0, self.base()),
    {
        if self.base_url.host_str().is_some() {
            return true;
        }
        proof { lemma_page_queries(); }
        let anchors = self.page().select("a");
        let ghost av = elements_view(anchors@);
        assert(av.take(0) =~= Seq::<ElementView>::empty());
        for i in 0..anchors.len()
            invariant
                av == elements_view(anchors@),
                av == spec_select(self.content()->Some_0, "a"@),
                spec_url_host(self.base()) is None,
                hrefs_of(av.take(i as int)).len() == 0,
        {
            assert(av.take(i + 1).drop_last() =~= av.take(i as int));
            assert(av.take(i + 1).last() == av[i as int]);
            assert(av[i as int] == element_view(anchors@[i as int]));
            if anchors[i].attr("href").is_some() {
                proof {
                    crate::seo_plugins::utils::page::lemma_hrefs_prefix(av, i + 1);
                    assert(hrefs_of(av.take(i + 1)).len() > 0);
                    assert(hrefs_of(av.take(i + 1)).len() <= hrefs_of(av).len());
                }
                return false;
            }
        }
        assert(av.take(anchors@.len() as int) =~= av);
        true
    }

    /// Everything read from the page.
    pub fn analyze_page(&self) -> (res: Result<PageAnalysis, PageParserError>)
        requires
            self.content() is Some,
            page_queries_valid(),
            links_classifiable(self.content()->Some_0, self.base()),
        ensures
            res matches Ok(a) && analysis_of(a, self.content()->Some_0, self.base(), self.path_view()),
    {
        Ok(PageAnalysis {
            meta_tags: self.extract_meta_tags(),
            headings: self.extract_headings(),
            images: self.extract_images(),
            links: self.extract_links(),
            base_info: self.extract_base(),
        })
    }
}

/// `a` is what reading the document `html` at `base` (with path `path`)
/// gives.
pub open spec fn analysis_of(a: PageAnalysis, html: Seq<char>, base: Seq<char>, path: Seq<char>) -> bool {
    &&& a.meta_tags.wf()
    &&& a.meta_tags.agrees(meta_of_document(html))
    &&& a.headings@.map_values(|h: Heading| parser_heading_view(h)) == headings_of(html)
    &&& a.images@.len() == spec_select(html, "img"@).len()
    &&& forall|i: int| 0 <= i < a.images@.len() ==> parser_image_view(#[trigger] a.images@[i]) == image_of(spec_select(html, "img"@)[i])
    &&& a.links@.map_values(|l: Links| parser_link_view(l)) == parser_links_of(html, base)
    &&& a.base_info.base_url@ == base
    &&& a.base_info.path@ == path
}

} // verus!
