//! The crawl of a site by following links: which URLs are known and how,
//! which are queued, and what each page yields.
use vstd::prelude::*;
use crate::html_doc::spec_select;
use crate::text::{contains, has_substring, str_eq};
use crate::text_map::TextMap;
use crate::web_url::{spec_url_join, spec_url_parse, spec_url_path, WebUrl};
use crate::html_parser::page_parser::{
    analysis_of, links_classifiable, normalize_url, parser_link_view, parser_links_of,
    trim_trailing_slashes, LinkType, PageAnalysis, PageParser, PageParserError,
};
use crate::seo_plugins::plugins::keep_where;
use crate::seo_plugins::site_analyzer::{clean_url, clean_url_spec};
use crate::text::owned;
use crate::seo_plugins::utils::config::strings_view;
use crate::seo_plugins::utils::link_parser::to_url;
use crate::seo_plugins::utils::page::{hrefs_of, page_queries_valid};
use crate::seo_plugins::utils::sitemap_parser::{dedup, parse_sitemap_urls, sitemap_locs};

verus! {

/// How a URL was found, and what was read from it.
pub struct UrlSource {
    pub found_in_links: bool,
    pub found_in_sitemap: bool,
    pub analysis: Option<PageAnalysis>,
}

/// Why a crawl step failed.
#[derive(Debug)]
pub enum CrawlerError {
    FetchError(String),
    UrlParseError(String),
    HtmlParseError(String),
    SitemapError(String),
    PageParserError(PageParserError),
}

/// Every URL known at the end of a crawl, and how many there are.
pub struct CrawlResult {
    pub urls: TextMap<UrlSource>,
    pub total_pages: u32,
}

/// How many pages are fetched at once.
pub const MAX_CONCURRENT_REQUESTS: usize = 5;

/// Each URL without trailing slashes.
pub open spec fn trimmed(s: Seq<Seq<char>>) -> Seq<Seq<char>> {
    s.map_values(|u: Seq<char>| trim_trailing_slashes(u))
}

/// The key under which a URL is known: the URL without its query and
/// fragment, and without the slashes at its end.
pub open spec fn crawl_key(u: Seq<char>) -> Seq<char> {
    trim_trailing_slashes(clean_url_spec(u))
}

/// Each URL's key.
pub open spec fn keyed(s: Seq<Seq<char>>) -> Seq<Seq<char>> {
    s.map_values(|u: Seq<char>| crawl_key(u))
}

/// The key of a URL (see `crawl_key`).
pub fn key_of(url: &str) -> (res: String)
    ensures
        res@ == crawl_key(url@),
{
    let c = clean_url(owned(url));
    normalize_url(c.as_str())
}

/// The URLs that a sitemap document lists, without trailing slashes, each
/// once, in document order.
pub open spec fn crawler_sitemap_urls(content: Seq<char>) -> Seq<Seq<char>> {
    dedup(trimmed(sitemap_locs(content)))
}

/// Where to look for sitemaps: the one the site's page points to, or else
/// the usual places that join to the site's URL; each without trailing
/// slashes, each once.
pub open spec fn sitemap_candidates_of(discovered: Option<Seq<char>>, base: Seq<char>) -> Seq<Seq<char>> {
    match discovered {
        Some(d) => seq![trim_trailing_slashes(d)],
        None => dedup(trimmed(joined_paths(base, seq!["/sitemap.xml"@, "/sitemap_index.xml"@, "/sitemap/sitemap.xml"@]))),
    }
}

/// The paths that join to `base`, joined, in order.
pub open spec fn joined_paths(base: Seq<char>, paths: Seq<Seq<char>>) -> Seq<Seq<char>>
    decreases paths.len(),
{
    if paths.len() == 0 {
        Seq::empty()
    } else {
        let rest = joined_paths(base, paths.drop_last());
        match spec_url_join(base, paths.last()) {
            Ok(u) => rest.push(u),
            Err(_) => rest,
        }
    }
}

/// The URLs of the internal links among `ls`, in order.
pub open spec fn internal_hrefs(ls: Seq<(Seq<char>, Seq<char>, LinkType)>) -> Seq<Seq<char>> {
    keep_where(ls, |l: (Seq<char>, Seq<char>, LinkType)| l.2 == LinkType::Internal).map_values(|l: (Seq<char>, Seq<char>, LinkType)| l.0)
}

/// The queue and the seen keys once each URL of `urls` was offered, in
/// order: a URL whose key was not seen is queued and its key marked seen.
pub open spec fn enqueue_model(seen: Seq<Seq<char>>, queue: Seq<Seq<char>>, urls: Seq<Seq<char>>) -> (Seq<Seq<char>>, Seq<Seq<char>>)
    decreases urls.len(),
{
    if urls.len() == 0 {
        (seen, queue)
    } else {
        let prev = enqueue_model(seen, queue, urls.drop_last());
        let n = crawl_key(urls.last());
        if prev.0.contains(n) { prev } else { (prev.0.push(n), prev.1.push(urls.last())) }
    }
}

/// No page is queued twice: offering URLs keeps the seen keys distinct, and
/// every queued URL's key among them.
pub proof fn law_enqueue_once(seen: Seq<Seq<char>>, queue: Seq<Seq<char>>, urls: Seq<Seq<char>>)
    requires
        forall|i: int, j: int| 0 <= i < j < seen.len() ==> seen[i] != seen[j],
        forall|i: int| 0 <= i < queue.len() ==> seen.contains(crawl_key(#[trigger] queue[i])),
    ensures
        ({
            let r = enqueue_model(seen, queue, urls);
            &&& forall|i: int, j: int| 0 <= i < j < r.0.len() ==> r.0[i] != r.0[j]
            &&& forall|i: int| 0 <= i < r.1.len() ==> r.0.contains(crawl_key(#[trigger] r.1[i]))
        }),
    decreases urls.len(),
{
    if urls.len() > 0 {
        law_enqueue_once(seen, queue, urls.drop_last());
        let prev = enqueue_model(seen, queue, urls.drop_last());
        let n = crawl_key(urls.last());
        if !prev.0.contains(n) {
            let s2 = prev.0.push(n);
            let q2 = prev.1.push(urls.last());
            assert forall|i: int, j: int| 0 <= i < j < s2.len() implies s2[i] != s2[j] by {
                if j == prev.0.len() {
                    if s2[i] == n { assert(prev.0[i] == n); }
                }
            }
            assert forall|i: int| 0 <= i < q2.len() implies s2.contains(crawl_key(#[trigger] q2[i])) by {
                if i < prev.1.len() {
                    assert(q2[i] == prev.1[i]);
                    let k = choose|k: int| 0 <= k < prev.0.len() && prev.0[k] == crawl_key(prev.1[i]);
                    assert(s2[k] == prev.0[k]);
                } else {
                    assert(s2[prev.0.len() as int] == n);
                }
            }
        }
    }
}

/// Copies a list of URLs without their trailing slashes, dropping repeats.
fn trimmed_unique(urls: &Vec<String>) -> (res: Vec<String>)
    ensures
        strings_view(res@) == dedup(trimmed(strings_view(urls@))),
{
    let ghost t = trimmed(strings_view(urls@));
    let mut out: Vec<String> = Vec::new();
    assert(t.take(0) =~= Seq::<Seq<char>>::empty());
    for i in 0..urls.len()
        invariant
            t == trimmed(strings_view(urls@)),
            strings_view(out@) == dedup(t.take(i as int)),
    {
        let n = normalize_url(urls[i].as_str());
        assert(t.take(i + 1).drop_last() =~= t.take(i as int));
        assert(t.take(i + 1).last() == n@);
        let mut found = false;
        let mut j: usize = 0;
        while j < out.len()
            invariant
                0 <= j <= out@.len(),
                found <==> exists|k: int| 0 <= k < j && out@[k]@ == n@,
            decreases out@.len() - j,
        {
            if str_eq(out[j].as_str(), n.as_str()) {
                found = true;
            }
            j = j + 1;
        }
        let ghost before = strings_view(out@);
        assert(found <==> before.contains(n@)) by {
            if found {
                let k = choose|k: int| 0 <= k < out@.len() && out@[k]@ == n@;
                assert(before[k] == n@);
            }
            if before.contains(n@) {
                let k = choose|k: int| 0 <= k < before.len() && before[k] == n@;
                assert(out@[k]@ == n@);
            }
        }
        if !found {
            out.push(n);
            assert(strings_view(out@) =~= before.push(t[i as int]));
        }
    }
    assert(t.take(urls@.len() as int) =~= t);
    out
}

/// What recording the fetch of `url` does (see `Crawler::record_page`):
/// the crawler keeps its site, queue and seen keys; a failed fetch fails
/// with `FetchError` and a URL that does not parse with `UrlParseError`,
/// changing nothing; otherwise the internal links of the page are returned
/// and the URL's key becomes known as found in links (and in the sitemap if
/// it was), with the page's analysis.
pub open spec fn records_page(res: Result<Vec<String>, CrawlerError>, url: Seq<char>, fetched: Result<String, String>, before: Crawler, after: Crawler) -> bool {
    &&& after.wf()
    &&& after.base() == before.base()
    &&& after.seen_view() == before.seen_view()
    &&& after.queue_view() == before.queue_view()
    &&& match fetched {
        Err(m) => (res matches Err(CrawlerError::FetchError(e)) && e@ == m@) && after.visited() == before.visited(),
        Ok(h) => match spec_url_parse(url) {
            Err(m) => (res matches Err(CrawlerError::PageParserError(PageParserError::UrlParseError(e))) && e@ == m)
                && after.visited() == before.visited(),
            Ok(u) => {
                let k = crawl_key(url);
                &&& res matches Ok(urls) && strings_view(urls@) == internal_hrefs(parser_links_of(h@, u))
                &&& after.visited() == before.visited().insert(k, after.visited()[k])
                &&& after.visited()[k].found_in_links
                &&& after.visited()[k].found_in_sitemap == (before.visited().dom().contains(k) && before.visited()[k].found_in_sitemap)
                &&& after.visited()[k].analysis matches Some(a) && analysis_of(a, h@, u, spec_url_path(u))
            },
        },
    }
}

/// Crawls a site by following its internal links.
pub struct Crawler {
    base_url: WebUrl,
    visited_urls: TextMap<UrlSource>,
    seen: Vec<String>,
    queue: Vec<String>,
}

impl Crawler {
    /// The table of known URLs is well formed.
    pub closed spec fn wf(&self) -> bool {
        self.visited_urls.wf()
    }

    /// The URL of the site.
    pub closed spec fn base(&self) -> Seq<char> {
        self.base_url@
    }

    /// The known URLs, each with how it was found and what was read.
    pub closed spec fn visited(&self) -> Map<Seq<char>, UrlSource> {
        self.visited_urls.as_map()
    }

    /// The known URLs, in the order in which they became known.
    pub closed spec fn visited_keys(&self) -> Seq<Seq<char>> {
        self.visited_urls.key_seq()
    }

    /// The trimmed URLs queued at some point.
    pub closed spec fn seen_view(&self) -> Seq<Seq<char>> {
        strings_view(self.seen@)
    }

    /// The URLs waiting to be fetched, in order.
    pub closed spec fn queue_view(&self) -> Seq<Seq<char>> {
        strings_view(self.queue@)
    }

    /// A crawler for the site at `base_url`; fails with `UrlParseError` when
    /// the URL does not parse.
    pub fn new(base_url: &str) -> (res: Result<Self, CrawlerError>)
        ensures
            match spec_url_parse(base_url@) {
                Ok(u) => res matches Ok(c) && c.wf() && c.base() == u && c.visited_keys().len() == 0
                    && c.visited() == Map::<Seq<char>, UrlSource>::empty()
                    && c.seen_view().len() == 0 && c.queue_view().len() == 0,
                Err(m) => res matches Err(CrawlerError::UrlParseError(e)) && e@ == m,
            },
    {
        let base_url = match to_url(base_url) {
            Ok(u) => u,
            Err(crate::seo_plugins::utils::link_parser::LinkParseError::UrlParseError(m)) => { return Err(CrawlerError::UrlParseError(m)); },
            Err(crate::seo_plugins::utils::link_parser::LinkParseError::LinkParseError(m)) => { return Err(CrawlerError::UrlParseError(m)); },
        };
        let c = Crawler { base_url, visited_urls: TextMap::new(), seen: Vec::new(), queue: Vec::new() };
        assert(c.seen_view() =~= Seq::<Seq<char>>::empty());
        assert(c.queue_view() =~= Seq::<Seq<char>>::empty());
        Ok(c)
    }

    /// The URLs that the sitemap document `content` lists, without trailing
    /// slashes, each once.
    pub fn parse_sitemap_urls(content: &str) -> (res: Vec<String>)
        ensures
            strings_view(res@) == crawler_sitemap_urls(content@),
    {
        let urls = parse_sitemap_urls(content);
        trimmed_unique(&urls)
    }

    /// Whether the sitemap document `text` is a sitemap index.
    pub fn is_sitemap_index(text: &str) -> (res: bool)
        ensures
            res == has_substring(text@, "<sitemapindex"@),
    {
        contains(text, "<sitemapindex")
    }

    /// What a sitemap document `text` read at one of the candidate places
    /// yields: its URLs to crawl, and the sitemaps it points to. A sitemap
    /// index yields no URLs of its own and the sitemaps it lists (each read
    /// once, as a plain list of URLs); any other document yields its URLs.
    pub fn read_sitemap(text: &str) -> (res: (Vec<String>, Vec<String>))
        ensures
            if has_substring(text@, "<sitemapindex"@) {
                res.0@.len() == 0 && strings_view(res.1@) == crawler_sitemap_urls(text@)
            } else {
                strings_view(res.0@) == crawler_sitemap_urls(text@) && res.1@.len() == 0
            },
    {
        let urls = Self::parse_sitemap_urls(text);
        if Self::is_sitemap_index(text) {
            (Vec::new(), urls)
        } else {
            (urls, Vec::new())
        }
    }

    /// Where to look for sitemaps (see `sitemap_candidates_of`).
    pub fn sitemap_candidates(&self, discovered: Option<String>) -> (res: Vec<String>)
        ensures
            strings_view(res@) == sitemap_candidates_of(match discovered { Some(d) => Some(d@), None => None }, self.base()),
    {
        match discovered {
            Some(d) => {
                let n = normalize_url(d.as_str());
                let v = vec![n];
                assert(strings_view(v@) =~= seq![trim_trailing_slashes(d@)]);
                v
            },
            None => {
                let paths: [&str; 3] = ["/sitemap.xml", "/sitemap_index.xml", "/sitemap/sitemap.xml"];
                let ghost ps = seq!["/sitemap.xml"@, "/sitemap_index.xml"@, "/sitemap/sitemap.xml"@];
                let mut joined: Vec<String> = Vec::new();
                let mut i: usize = 0;
                assert(ps.take(0) =~= Seq::<Seq<char>>::empty());
                while i < 3
                    invariant
                        0 <= i <= 3,
                        paths@.map_values(|p: &str| p@) == ps,
                        ps == seq!["/sitemap.xml"@, "/sitemap_index.xml"@, "/sitemap/sitemap.xml"@],
                        strings_view(joined@) == joined_paths(self.base(), ps.take(i as int)),
                    decreases 3 - i,
                {
                    assert(paths@.map_values(|p: &str| p@)[i as int] == paths@[i as int]@);
                    assert(ps.take(i + 1).drop_last() =~= ps.take(i as int));
                    assert(ps.take(i + 1).last() == ps[i as int]);
                    let ghost before = strings_view(joined@);
                    if let Ok(u) = self.base_url.join(paths[i]) {
                        let s = u.as_string();
                        joined.push(s);
                        assert(strings_view(joined@) =~= before.push(u@));
                    }
                    i = i + 1;
                }
                assert(ps.take(3) =~= ps);
                trimmed_unique(&joined)
            },
        }
    }

    /// Starts a crawl: each sitemap URL becomes known under its key as found
    /// in the sitemap (replacing what was known of it), and the queue holds
    /// just the site's URL, whose key alone is seen.
    pub fn start(&mut self, sitemap_urls: &Vec<String>)
        requires
            old(self).wf(),
        ensures
            final(self).wf(),
            final(self).base() == old(self).base(),
            forall|k: Seq<char>| #[trigger] final(self).visited().dom().contains(k)
                <==> old(self).visited().dom().contains(k) || keyed(strings_view(sitemap_urls@)).contains(k),
            forall|k: Seq<char>| keyed(strings_view(sitemap_urls@)).contains(k) ==> ({
                let s = #[trigger] final(self).visited()[k];
                !s.found_in_links && s.found_in_sitemap && s.analysis is None
            }),
            forall|k: Seq<char>| old(self).visited().dom().contains(k) && !keyed(strings_view(sitemap_urls@)).contains(k)
                ==> #[trigger] final(self).visited()[k] == old(self).visited()[k],
            final(self).queue_view() == seq![old(self).base()],
            final(self).seen_view() == seq![crawl_key(old(self).base())],
    {
        let ghost t = keyed(strings_view(sitemap_urls@));
        for i in 0..sitemap_urls.len()
            invariant
                self.wf(),
                self.base() == old(self).base(),
                t == keyed(strings_view(sitemap_urls@)),
                forall|k: Seq<char>| #[trigger] self.visited().dom().contains(k)
                    <==> old(self).visited().dom().contains(k) || t.take(i as int).contains(k),
                forall|k: Seq<char>| t.take(i as int).contains(k) ==> ({
                    let s = #[trigger] self.visited()[k];
                    !s.found_in_links && s.found_in_sitemap && s.analysis is None
                }),
                forall|k: Seq<char>| old(self).visited().dom().contains(k) && !t.take(i as int).contains(k)
                    ==> #[trigger] self.visited()[k] == old(self).visited()[k],
        {
            let n = key_of(sitemap_urls[i].as_str());
            let ghost before = t.take(i as int);
            let ghost after = t.take(i + 1);
            let ghost prev_map = self.visited();
            assert(after =~= before.push(n@));
            let ghost src = UrlSource { found_in_links: false, found_in_sitemap: true, analysis: None };
            self.visited_urls.insert(n, UrlSource { found_in_links: false, found_in_sitemap: true, analysis: None });
            assert(self.visited() == prev_map.insert(t[i as int], src));
            assert forall|k: Seq<char>| after.contains(k) <==> before.contains(k) || k == t[i as int] by {
                if after.contains(k) {
                    let j = choose|j: int| 0 <= j < after.len() && #[trigger] after[j] == k;
                    if j < i { assert(before[j] == k); }
                }
                if before.contains(k) {
                    let j = choose|j: int| 0 <= j < before.len() && #[trigger] before[j] == k;
                    assert(after[j] == k);
                }
                if k == t[i as int] { assert(after[i as int] == k); }
            }
            assert forall|k: Seq<char>| #[trigger] self.visited().dom().contains(k)
                <==> old(self).visited().dom().contains(k) || after.contains(k) by {
                assert(prev_map.dom().contains(k) <==> old(self).visited().dom().contains(k) || before.contains(k));
            }
            assert forall|k: Seq<char>| after.contains(k) implies ({
                let s = #[trigger] self.visited()[k];
                !s.found_in_links && s.found_in_sitemap && s.analysis is None
            }) by {
                if k != t[i as int] {
                    assert(before.contains(k));
                }
            }
            assert forall|k: Seq<char>| old(self).visited().dom().contains(k) && !after.contains(k)
                implies #[trigger] self.visited()[k] == old(self).visited()[k] by {
                assert(!before.contains(k));
                assert(k != t[i as int]);
                assert(self.visited()[k] == prev_map[k]);
            }
        }
        assert(t.take(sitemap_urls@.len() as int) =~= t);
        assert forall|k: Seq<char>| #[trigger] self.visited().dom().contains(k)
            <==> old(self).visited().dom().contains(k) || t.contains(k) by {
            assert(t.take(sitemap_urls@.len() as int) == t);
        }
        assert forall|k: Seq<char>| t.contains(k) implies ({
            let s = #[trigger] self.visited()[k];
            !s.found_in_links && s.found_in_sitemap && s.analysis is None
        }) by {
            assert(t.take(sitemap_urls@.len() as int) == t);
        }
        let first = self.base_url.as_string();
        let trimmed_base = key_of(first.as_str());
        self.queue = vec![first];
        self.seen = vec![trimmed_base];
        assert(self.queue_view() =~= seq![old(self).base()]);
        assert(self.seen_view() =~= seq![crawl_key(old(self).base())]);
    }

    /// Takes the next URLs to fetch, at most `MAX_CONCURRENT_REQUESTS`,
    /// from the front of the queue.
    pub fn next_batch(&mut self) -> (res: Vec<String>)
        ensures
            final(self).wf() == old(self).wf(),
            final(self).base() == old(self).base(),
            final(self).visited() == old(self).visited(),
            final(self).visited_keys() == old(self).visited_keys(),
            final(self).seen_view() == old(self).seen_view(),
            ({
                let k = if old(self).queue_view().len() < MAX_CONCURRENT_REQUESTS { old(self).queue_view().len() as int } else { MAX_CONCURRENT_REQUESTS as int };
                &&& strings_view(res@) == old(self).queue_view().take(k)
                &&& final(self).queue_view() == old(self).queue_view().skip(k)
            }),
    {
        let n = if self.queue.len() < MAX_CONCURRENT_REQUESTS { self.queue.len() } else { MAX_CONCURRENT_REQUESTS };
        let mut batch = self.queue.split_off(n);
        std::mem::swap(&mut batch, &mut self.queue);
        assert(strings_view(batch@) =~= old(self).queue_view().take(n as int));
        assert(self.queue_view() =~= old(self).queue_view().skip(n as int));
        batch
    }

    /// Whether the queue is empty.
    pub fn is_done(&self) -> (res: bool)
        ensures
            res == (self.queue_view().len() == 0),
    {
        self.queue.len() == 0
    }

    /// Offers the URLs `urls`, in order: each whose key was not seen is
    /// queued and its key marked seen.
    pub fn enqueue(&mut self, urls: &Vec<String>)
        ensures
            final(self).wf() == old(self).wf(),
            final(self).base() == old(self).base(),
            final(self).visited() == old(self).visited(),
            final(self).visited_keys() == old(self).visited_keys(),
            (final(self).seen_view(), final(self).queue_view()) == enqueue_model(old(self).seen_view(), old(self).queue_view(), strings_view(urls@)),
    {
        let ghost us = strings_view(urls@);
        assert(us.take(0) =~= Seq::<Seq<char>>::empty());
        for i in 0..urls.len()
            invariant
                self.wf() == old(self).wf(),
                self.base() == old(self).base(),
                self.visited() == old(self).visited(),
                self.visited_keys() == old(self).visited_keys(),
                us == strings_view(urls@),
                (self.seen_view(), self.queue_view()) == enqueue_model(old(self).seen_view(), old(self).queue_view(), us.take(i as int)),
        {
            assert(us.take(i + 1).drop_last() =~= us.take(i as int));
            assert(us.take(i + 1).last() == urls@[i as int]@);
            let n = key_of(urls[i].as_str());
            let ghost sv = self.seen_view();
            let mut found = false;
            let mut j: usize = 0;
            while j < self.seen.len()
                invariant
                    0 <= j <= self.seen@.len(),
                    sv == strings_view(self.seen@),
                    found <==> exists|k: int| 0 <= k < j && self.seen@[k]@ == n@,
                decreases self.seen@.len() - j,
            {
                if str_eq(self.seen[j].as_str(), n.as_str()) {
                    found = true;
                }
                j = j + 1;
            }
            assert(found <==> sv.contains(n@)) by {
                if found {
                    let k = choose|k: int| 0 <= k < self.seen@.len() && self.seen@[k]@ == n@;
                    assert(sv[k] == n@);
                }
                if sv.contains(n@) {
                    let k = choose|k: int| 0 <= k < sv.len() && sv[k] == n@;
                    assert(self.seen@[k]@ == n@);
                }
            }
            if !found {
                let ghost qv = self.queue_view();
                self.seen.push(n);
                self.queue.push(urls[i].clone());
                assert(self.seen_view() =~= sv.push(crawl_key(us[i as int])));
                assert(self.queue_view() =~= qv.push(us[i as int]));
            }
        }
        assert(us.take(urls@.len() as int) =~= us);
    }

    /// Whether the links of the page at `url` with HTML `html` can be
    /// classified (see `links_classifiable`); the URL must parse.
    pub fn can_classify(url: &WebUrl, html: &str) -> (res: bool)
        requires
            page_queries_valid(),
        ensures
            res == links_classifiable(html@, url@),
    {
        let mut parser = PageParser::from_url(url.duplicate());
        parser.set_content(crate::text::owned(html));
        parser.links_classifiable()
    }

    /// Records what was fetched from `url`: the page's HTML, or the message
    /// of the failed fetch. The page is read, the URL's key becomes known
    /// as found in links with its analysis, and the internal links of the
    /// page are returned. Fails with `FetchError` for a failed fetch and with
    /// `PageParserError` when `url` does not parse.
    pub fn record_page(&mut self, url: &str, fetched: Result<String, String>) -> (res: Result<Vec<String>, CrawlerError>)
        requires
            old(self).wf(),
            page_queries_valid(),
            fetched matches Ok(h) ==> (spec_url_parse(url@) is Ok ==> links_classifiable(h@, spec_url_parse(url@)->Ok_0)),
        ensures
            records_page(res, url@, fetched, *old(self), *final(self)),
    {
        let html = match fetched {
            Ok(h) => h,
            Err(m) => { return Err(CrawlerError::FetchError(m)); },
        };
        let mut parser = match PageParser::new(url) {
            Ok(p) => p,
            Err(e) => { return Err(CrawlerError::PageParserError(e)); },
        };
        parser.set_content(html);
        let analysis = match parser.analyze_page() {
            Ok(a) => a,
            Err(e) => { return Err(CrawlerError::PageParserError(e)); },
        };
        let ghost lv = analysis.links@.map_values(|l: crate::html_parser::page_parser::Links| parser_link_view(l));
        let ghost p = |l: (Seq<char>, Seq<char>, LinkType)| l.2 == LinkType::Internal;
        let mut urls: Vec<String> = Vec::new();
        assert(lv.take(0) =~= Seq::<(Seq<char>, Seq<char>, LinkType)>::empty());
        for i in 0..analysis.links.len()
            invariant
                lv == analysis.links@.map_values(|l: crate::html_parser::page_parser::Links| parser_link_view(l)),
                p == (|l: (Seq<char>, Seq<char>, LinkType)| l.2 == LinkType::Internal),
                strings_view(urls@) == keep_where(lv.take(i as int), p).map_values(|l: (Seq<char>, Seq<char>, LinkType)| l.0),
        {
            assert(lv.take(i + 1).drop_last() =~= lv.take(i as int));
            assert(lv.take(i + 1).last() == parser_link_view(analysis.links@[i as int]));
            let ghost before = urls@;
            if analysis.links[i].link_type == LinkType::Internal {
                urls.push(analysis.links[i].href.clone());
                assert(strings_view(urls@) =~= strings_view(before).push(analysis.links@[i as int].href@));
            }
        }
        assert(lv.take(analysis.links@.len() as int) =~= lv);
        let key = key_of(url);
        let ghost k = key@;
        proof { self.visited_urls.lemma_shape(); }
        let in_sitemap = match self.visited_urls.get(key.as_str()) {
            Some(s) => s.found_in_sitemap,
            None => false,
        };
        self.visited_urls.insert(key, UrlSource { found_in_links: true, found_in_sitemap: in_sitemap, analysis: Some(analysis) });
        Ok(urls)
    }

    /// Ends the crawl: every known URL, and how many there are.
    pub fn into_result(self) -> (res: CrawlResult)
        requires
            self.wf(),
        ensures
            res.urls.wf(),
            res.urls.as_map() == self.visited(),
            res.urls.key_seq() == self.visited_keys(),
            res.total_pages == self.visited_keys().len() as u32,
    {
        let n = self.visited_urls.len();
        CrawlResult { urls: self.visited_urls, total_pages: n as u32 }
    }

    /// `record_page`, where the links of a fetched page whose URL parses can
    /// be classified; nothing otherwise, and the crawl is left as it was.
    pub fn try_record_page(&mut self, url: &str, fetched: Result<String, String>) -> (res: Option<Result<Vec<String>, CrawlerError>>)
        requires
            old(self).wf(),
            page_queries_valid(),
        ensures
            final(self).wf(),
            res is None <==> (fetched matches Ok(h) && spec_url_parse(url@) is Ok
                && !links_classifiable(h@, spec_url_parse(url@)->Ok_0)),
            res is None ==> final(self).visited() == old(self).visited(),
            res matches Some(r) ==> records_page(r, url@, fetched, *old(self), *final(self)),
    {
        if let Ok(h) = &fetched {
            if let Ok(u) = to_url(url) {
                if !Self::can_classify(&u, h.as_str()) {
                    return None;
                }
            }
        }
        Some(self.record_page(url, fetched))
    }
}

} // verus!
