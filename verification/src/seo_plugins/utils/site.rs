//! A simpler record of a site's links: each URL with where it was last
//! found.
use vstd::prelude::*;
use crate::text::{concat2, owned};
use crate::text_map::TextMap;
use crate::web_url::{spec_url_join, spec_url_parse, WebUrl};
use super::link_parser::{to_url, Link, LinkParseError};
use super::page::PageError;

verus! {

/// Why a site could not be recorded.
#[derive(Debug)]
pub enum SiteError {
    UrlParseError(String),
    PageError(PageError),
}

/// How a URL was found.
#[derive(Clone, Copy, Debug, PartialEq, Eq, Structural)]
pub enum LinkSourceType {
    Sitemap,
    Link,
}

/// Where a URL was found: how, and at which URL.
pub struct PageLinkSource {
    pub link_source_type: LinkSourceType,
    pub url: WebUrl,
}

/// A URL of the site and where it was found.
pub struct PageLink {
    pub url: WebUrl,
    pub found_in: Vec<PageLinkSource>,
}

/// The view of a recorded URL: the URL and its sources.
pub open spec fn page_link_view(l: PageLink) -> (Seq<char>, Seq<(LinkSourceType, Seq<char>)>) {
    (l.url@, l.found_in@.map_values(|s: PageLinkSource| (s.link_source_type, s.url@)))
}

/// The text of a link error, as it reads when shown.
pub open spec fn link_error_text(e: LinkParseError) -> Seq<char> {
    match e {
        LinkParseError::LinkParseError(m) => "Failed to parse link: "@ + m@,
        LinkParseError::UrlParseError(m) => "Failed to parse URL: "@ + m@,
    }
}

/// The URLs of a site, each with where it was last found.
pub struct Site {
    url: WebUrl,
    links: TextMap<PageLink>,
}

impl Site {
    /// The table is well formed.
    pub closed spec fn wf(&self) -> bool {
        self.links.wf()
    }

    /// The URL of the site.
    pub closed spec fn base(&self) -> Seq<char> {
        self.url@
    }

    /// The recorded URLs.
    pub closed spec fn links_view(&self) -> Map<Seq<char>, (Seq<char>, Seq<(LinkSourceType, Seq<char>)>)> {
        self.links.as_map().map_values(|l: PageLink| page_link_view(l))
    }

    /// A record for the site at `url`, with no URL yet; fails with
    /// `UrlParseError` when `url` does not parse.
    pub fn new(url: &str) -> (res: Result<Self, SiteError>)
        ensures
            match spec_url_parse(url@) {
                Ok(u) => res matches Ok(s) && s.wf() && s.base() == u
                    && s.links_view() == Map::<Seq<char>, (Seq<char>, Seq<(LinkSourceType, Seq<char>)>)>::empty(),
                Err(m) => res matches Err(SiteError::UrlParseError(e)) && e@ == "Failed to parse URL: "@ + m,
            },
    {
        let url = match to_url(url) {
            Ok(u) => u,
            Err(e) => { return Err(SiteError::UrlParseError(error_text(e))); },
        };
        let s = Site { url, links: TextMap::new() };
        assert(s.links_view() =~= Map::<Seq<char>, (Seq<char>, Seq<(LinkSourceType, Seq<char>)>)>::empty());
        Ok(s)
    }

    /// Records `url` as found at `source`, replacing what was recorded of
    /// it; fails with `UrlParseError` when `url` does not parse.
    pub fn add_link(&mut self, url: &str, source: PageLinkSource) -> (res: Result<(), SiteError>)
        requires
            old(self).wf(),
        ensures
            final(self).wf(),
            final(self).base() == old(self).base(),
            match spec_url_parse(url@) {
                Ok(u) => res is Ok && final(self).links_view() == old(self).links_view().insert(u, (u, seq![(source.link_source_type, source.url@)])),
                Err(m) => (res matches Err(SiteError::UrlParseError(e)) && e@ == "Failed to parse URL: "@ + m)
                    && final(self).links_view() == old(self).links_view(),
            },
    {
        let url = match to_url(url) {
            Ok(u) => u,
            Err(e) => { return Err(SiteError::UrlParseError(error_text(e))); },
        };
        let ghost sv = (source.link_source_type, source.url@);
        let key = url.as_string();
        let found_in = vec![source];
        let link = PageLink { url, found_in };
        assert(page_link_view(link) == (key@, seq![sv])) by {
            assert(link.found_in@.map_values(|s: PageLinkSource| (s.link_source_type, s.url@)) =~= seq![sv]);
        }
        let ghost before = self.links.as_map();
        self.links.insert(key, link);
        assert(self.links_view() =~= before.map_values(|l: PageLink| page_link_view(l)).insert(key@, (key@, seq![sv])));
        Ok(())
    }

    /// Records the sitemap URLs `urls`, in order, each as found at the
    /// site's `/sitemap.xml`, stopping at the first that does not parse.
    /// Nothing is done, and nothing returned, when `/sitemap.xml` cannot be
    /// joined to the site's URL.
    pub fn add_sitemap_urls(&mut self, urls: &Vec<String>) -> (res: Option<Result<(), SiteError>>)
        requires
            old(self).wf(),
        ensures
            final(self).wf(),
            final(self).base() == old(self).base(),
            res is None <==> spec_url_join(old(self).base(), "/sitemap.xml"@) is Err,
            res is None ==> final(self).links_view() == old(self).links_view(),
            res matches Some(r) ==> (r is Ok <==> forall|i: int| 0 <= i < urls@.len() ==> spec_url_parse(#[trigger] urls@[i]@) is Ok),
            res matches Some(Ok(_)) ==> forall|k: Seq<char>| #[trigger] final(self).links_view().dom().contains(k)
                <==> old(self).links_view().dom().contains(k)
                    || exists|i: int| 0 <= i < urls@.len() && spec_url_parse(urls@[i]@) == Ok::<Seq<char>, Seq<char>>(k),
    {
        let sitemap = match self.url.join("/sitemap.xml") {
            Ok(u) => u,
            Err(_) => { return None; },
        };
        for i in 0..urls.len()
            invariant
                self.wf(),
                self.base() == old(self).base(),
                spec_url_join(old(self).base(), "/sitemap.xml"@) is Ok,
                forall|j: int| 0 <= j < i ==> spec_url_parse(#[trigger] urls@[j]@) is Ok,
                forall|k: Seq<char>| #[trigger] self.links_view().dom().contains(k)
                    <==> old(self).links_view().dom().contains(k)
                        || exists|j: int| 0 <= j < i && spec_url_parse(urls@[j]@) == Ok::<Seq<char>, Seq<char>>(k),
        {
            let source = PageLinkSource { link_source_type: LinkSourceType::Sitemap, url: sitemap.duplicate() };
            match self.add_link(urls[i].as_str(), source) {
                Ok(()) => {
                    let ghost u = spec_url_parse(urls@[i as int]@)->Ok_0;
                    assert forall|k: Seq<char>| #[trigger] self.links_view().dom().contains(k)
                        <==> old(self).links_view().dom().contains(k)
                            || exists|j: int| 0 <= j < i + 1 && spec_url_parse(urls@[j]@) == Ok::<Seq<char>, Seq<char>>(k) by {
                        if k == u {
                            assert(spec_url_parse(urls@[i as int]@) == Ok::<Seq<char>, Seq<char>>(k));
                        }
                        if exists|j: int| 0 <= j < i + 1 && spec_url_parse(urls@[j]@) == Ok::<Seq<char>, Seq<char>>(k) {
                            let j = choose|j: int| 0 <= j < i + 1 && spec_url_parse(urls@[j]@) == Ok::<Seq<char>, Seq<char>>(k);
                            if j < i {
                                assert(exists|j2: int| 0 <= j2 < i && spec_url_parse(urls@[j2]@) == Ok::<Seq<char>, Seq<char>>(k));
                            }
                        }
                    }
                },
                Err(e) => { return Some(Err(e)); },
            }
        }
        Some(Ok(()))
    }

    /// Records the links found on the page at `page_url`, in order, each as
    /// found there; stops at the first that does not parse.
    pub fn add_page_links(&mut self, page_url: &WebUrl, links: &Vec<Link>) -> (res: Result<(), SiteError>)
        requires
            old(self).wf(),
        ensures
            final(self).wf(),
            final(self).base() == old(self).base(),
            res is Ok <==> forall|i: int| 0 <= i < links@.len() ==> spec_url_parse(#[trigger] links@[i].href@) is Ok,
            res is Ok ==> forall|k: Seq<char>| #[trigger] final(self).links_view().dom().contains(k)
                <==> old(self).links_view().dom().contains(k)
                    || exists|i: int| 0 <= i < links@.len() && spec_url_parse(links@[i].href@) == Ok::<Seq<char>, Seq<char>>(k),
    {
        for i in 0..links.len()
            invariant
                self.wf(),
                self.base() == old(self).base(),
                forall|j: int| 0 <= j < i ==> spec_url_parse(#[trigger] links@[j].href@) is Ok,
                forall|k: Seq<char>| #[trigger] self.links_view().dom().contains(k)
                    <==> old(self).links_view().dom().contains(k)
                        || exists|j: int| 0 <= j < i && spec_url_parse(links@[j].href@) == Ok::<Seq<char>, Seq<char>>(k),
        {
            let source = PageLinkSource { link_source_type: LinkSourceType::Link, url: page_url.duplicate() };
            let ghost before = self.links_view();
            match self.add_link(links[i].href.as_str(), source) {
                Ok(()) => {
                    let ghost u = spec_url_parse(links@[i as int].href@)->Ok_0;
                    assert forall|k: Seq<char>| #[trigger] self.links_view().dom().contains(k)
                        <==> old(self).links_view().dom().contains(k)
                            || exists|j: int| 0 <= j < i + 1 && spec_url_parse(links@[j].href@) == Ok::<Seq<char>, Seq<char>>(k) by {
                        if k == u {
                            assert(spec_url_parse(links@[i as int].href@) == Ok::<Seq<char>, Seq<char>>(k));
                        }
                        if exists|j: int| 0 <= j < i + 1 && spec_url_parse(links@[j].href@) == Ok::<Seq<char>, Seq<char>>(k) {
                            let j = choose|j: int| 0 <= j < i + 1 && spec_url_parse(links@[j].href@) == Ok::<Seq<char>, Seq<char>>(k);
                            if j < i {
                                assert(exists|j2: int| 0 <= j2 < i && spec_url_parse(links@[j2].href@) == Ok::<Seq<char>, Seq<char>>(k));
                            }
                        }
                    }
                },
                Err(e) => { return Err(e); },
            }
        }
        Ok(())
    }
}

/// The text of a link error, as it reads when shown.
fn error_text(e: LinkParseError) -> (res: String)
    ensures
        res@ == link_error_text(e),
{
    match e {
        LinkParseError::LinkParseError(m) => concat2("Failed to parse link: ", m.as_str()),
        LinkParseError::UrlParseError(m) => concat2("Failed to parse URL: ", m.as_str()),
    }
}

} // verus!
