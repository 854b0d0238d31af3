//! The analysis of the pages of a crawl.
use vstd::prelude::*;
use crate::text_map::{keys_of, TextMap};
use crate::web_url::{spec_url_parse, spec_url_path, WebUrl};
use crate::html_parser::page_parser::{
    analysis_of, links_classifiable, BaseInfo, MetaTagInfo, PageAnalysis, PageParser, PageParserError,
};
use crate::seo_plugins::utils::config::strings_view;
use crate::seo_plugins::utils::link_parser::{to_url, LinkParseError};
use crate::seo_plugins::utils::page::page_queries_valid;
use crate::seo_plugins::plugins::{
    count_where, first_match, keep_where, lemma_count_push, lemma_first_match_prefix,
};
use super::crawler::{CrawlResult, UrlSource};

verus! {

/// Why an analysis failed.
#[derive(Debug)]
pub enum AnalyzerError {
    FetchError(String),
    HtmlParseError(String),
    LighthouseError(String),
    UrlParseError(String),
    PageParserError(PageParserError),
}

/// Where the analysis of a page stands.
pub enum AnalysisStatus {
    Pending,
    InProgress,
    Complete,
    Failed(String),
}

/// The analysis of a page and where it stands.
pub struct AnalysisResult {
    pub analysis: PageAnalysis,
    pub status: AnalysisStatus,
}

/// How far the analysis of a crawl has come: how many pages there are, how
/// many are done, and each page's analysis.
pub struct AnalysisProgress {
    pub total_urls: u32,
    pub completed_urls: u32,
    pub results: TextMap<AnalysisResult>,
}

/// Analyzes the pages of a crawled site.
pub struct Analyzer {
    base_url: WebUrl,
    lighthouse_enabled: bool,
}

/// The entries of a crawl, each URL with what is known of it, in order.
pub open spec fn crawl_entries(urls: TextMap<UrlSource>) -> Seq<(Seq<char>, UrlSource)> {
    Seq::new(urls.key_seq().len(), |i: int| (urls.key_seq()[i], urls.value_seq()[i]))
}

/// The page has no analysis yet.
pub open spec fn unanalyzed(e: (Seq<char>, UrlSource)) -> bool {
    e.1.analysis is None
}

/// The page has no analysis and its URL does not parse, so it cannot be
/// read.
pub open spec fn unreadable(e: (Seq<char>, UrlSource)) -> bool {
    e.1.analysis is None && spec_url_parse(e.0) is Err
}

/// The test for a page that cannot be read.
pub open spec fn unreadable_pred() -> spec_fn((Seq<char>, UrlSource)) -> bool {
    |e: (Seq<char>, UrlSource)| unreadable(e)
}

/// The test for a complete result.
pub open spec fn complete_pred() -> spec_fn(AnalysisResult) -> bool {
    |r: AnalysisResult| is_complete(r)
}

/// The URLs of the pages without an analysis, in order.
pub open spec fn unanalyzed_keys(urls: TextMap<UrlSource>) -> Seq<Seq<char>> {
    keep_where(crawl_entries(urls), |e: (Seq<char>, UrlSource)| unanalyzed(e)).map_values(|e: (Seq<char>, UrlSource)| e.0)
}

/// The analysis that stands for a page that was not read: nothing found on
/// it, only its URL and path.
pub open spec fn blank_analysis(a: PageAnalysis, base: Seq<char>, path: Seq<char>) -> bool {
    &&& a.meta_tags.wf()
    &&& a.meta_tags.title is None && a.meta_tags.description is None && a.meta_tags.keywords is None
    &&& a.meta_tags.robots is None && a.meta_tags.canonical is None && a.meta_tags.sitemap is None
    &&& a.meta_tags.favicon is None && a.meta_tags.viewport is None && a.meta_tags.webmanifest is None
    &&& a.meta_tags.generators@.len() == 0 && a.meta_tags.scripts@.len() == 0 && a.meta_tags.styles@.len() == 0
    &&& a.meta_tags.og_tags.key_seq().len() == 0 && a.meta_tags.twitter_tags.key_seq().len() == 0
    &&& a.headings@.len() == 0 && a.images@.len() == 0 && a.links@.len() == 0
    &&& a.base_info.base_url@ == base
    &&& a.base_info.path@ == path
}

/// What becomes of the page `key`, known as `src`, given what was fetched:
/// a page with an analysis keeps it and is complete; a page without one is
/// read from its fetched HTML and complete, or marked failed with the
/// message of its failed fetch, or left pending when it was not fetched.
pub open spec fn page_outcome(r: AnalysisResult, key: Seq<char>, src: UrlSource, fetched: Map<Seq<char>, Result<String, String>>) -> bool {
    match src.analysis {
        Some(a) => r.status is Complete && r.analysis == a,
        None => {
            let u = spec_url_parse(key)->Ok_0;
            if fetched.dom().contains(key) {
                match fetched[key] {
                    Ok(h) => r.status is Complete && analysis_of(r.analysis, h@, u, spec_url_path(u)),
                    Err(m) => (r.status matches AnalysisStatus::Failed(e) && e@ == m@) && blank_analysis(r.analysis, u, spec_url_path(u)),
                }
            } else {
                r.status is Pending && blank_analysis(r.analysis, u, spec_url_path(u))
            }
        },
    }
}

/// The result is complete.
pub open spec fn is_complete(r: AnalysisResult) -> bool {
    r.status is Complete
}

/// The outcome of analyzing a crawl with the fetched pages `fetched`: the
/// first page that cannot be read (no analysis, URL does not parse) fails
/// the whole with `UrlParseError`; otherwise every page of the crawl, in
/// order, has its outcome, and the progress counts all pages and the
/// complete ones.
pub open spec fn crawl_analysis(res: Result<AnalysisProgress, AnalyzerError>, urls: TextMap<UrlSource>, fetched: Map<Seq<char>, Result<String, String>>) -> bool {
    match first_match(crawl_entries(urls), unreadable_pred()) {
        Some(i) => res matches Err(AnalyzerError::PageParserError(PageParserError::UrlParseError(m)))
            && spec_url_parse(urls.key_seq()[i]) == Err::<Seq<char>, Seq<char>>(m@),
        None => res matches Ok(p) && ({
            let n = urls.key_seq().len();
            &&& p.total_urls == n as u32
            &&& p.results.wf()
            &&& p.results.key_seq() == urls.key_seq()
            &&& forall|i: int| 0 <= i < n ==> page_outcome(#[trigger] p.results.value_seq()[i], urls.key_seq()[i], urls.value_seq()[i], fetched)
            &&& p.completed_urls == count_where(p.results.value_seq(), complete_pred()) as u32
        }),
    }
}

/// The fetched HTML of each page without an analysis, whose URL parses,
/// has links that can be classified (see `links_classifiable`).
pub open spec fn fetched_classifiable(urls: TextMap<UrlSource>, fetched: Map<Seq<char>, Result<String, String>>) -> bool {
    forall|i: int| 0 <= i < urls.key_seq().len() && (#[trigger] urls.value_seq()[i]).analysis is None
        && spec_url_parse(urls.key_seq()[i]) is Ok && fetched.dom().contains(urls.key_seq()[i])
        ==> (fetched[urls.key_seq()[i]] matches Ok(h) ==> links_classifiable(h@, spec_url_parse(urls.key_seq()[i])->Ok_0))
}

/// The URLs of the pages of a crawl without an analysis, in order: those
/// that need fetching.
pub fn unanalyzed_urls(crawl_result: &CrawlResult) -> (res: Vec<String>)
    ensures
        strings_view(res@) == unanalyzed_keys(crawl_result.urls),
{
    let ghost es = crawl_entries(crawl_result.urls);
    let ghost p = |e: (Seq<char>, UrlSource)| unanalyzed(e);
    let ghost f = |e: (Seq<char>, UrlSource)| e.0;
    let n = crawl_result.urls.len();
    let mut out: Vec<String> = Vec::new();
    assert(es.take(0) =~= Seq::<(Seq<char>, UrlSource)>::empty());
    for i in 0..n
        invariant
            n == crawl_result.urls.key_seq().len(),
            es == crawl_entries(crawl_result.urls),
            p == (|e: (Seq<char>, UrlSource)| unanalyzed(e)),
            f == (|e: (Seq<char>, UrlSource)| e.0),
            strings_view(out@) == keep_where(es.take(i as int), p).map_values(f),
    {
        let (url, source) = crawl_result.urls.entry_at(i);
        assert(es.take(i + 1).drop_last() =~= es.take(i as int));
        assert(es.take(i + 1).last() == es[i as int]);
        assert(es[i as int] == (url@, *source));
        let ghost before = out@;
        if source.analysis.is_none() {
            out.push(url.clone());
            assert(strings_view(out@) =~= strings_view(before).push(url@));
        }
    }
    assert(es.take(n as int) =~= es);
    out
}

/// An analysis for a page that was not read.
fn blank_page_analysis(url: &WebUrl) -> (res: PageAnalysis)
    ensures
        blank_analysis(res, url@, spec_url_path(url@)),
{
    let meta_tags = MetaTagInfo {
        title: None,
        description: None,
        keywords: None,
        robots: None,
        canonical: None,
        sitemap: None,
        favicon: None,
        viewport: None,
        generators: Vec::new(),
        webmanifest: None,
        og_tags: TextMap::new(),
        scripts: Vec::new(),
        styles: Vec::new(),
        twitter_tags: TextMap::new(),
    };
    PageAnalysis {
        meta_tags,
        headings: Vec::new(),
        images: Vec::new(),
        links: Vec::new(),
        base_info: BaseInfo { base_url: url.as_string(), path: url.path() },
    }
}

impl Analyzer {
    /// The URL of the site.
    pub closed spec fn base(&self) -> Seq<char> {
        self.base_url@
    }

    /// Whether Lighthouse audits are wanted.
    pub closed spec fn lighthouse(&self) -> bool {
        self.lighthouse_enabled
    }

    /// An analyzer for the site at `base_url`; fails with `UrlParseError`
    /// when the URL does not parse.
    pub fn new(base_url: &str, lighthouse_enabled: bool) -> (res: Result<Self, AnalyzerError>)
        ensures
            match spec_url_parse(base_url@) {
                Ok(u) => res matches Ok(a) && a.base() == u && a.lighthouse() == lighthouse_enabled,
                Err(m) => res matches Err(AnalyzerError::UrlParseError(e)) && e@ == m,
            },
    {
        match to_url(base_url) {
            Ok(u) => Ok(Analyzer { base_url: u, lighthouse_enabled }),
            Err(LinkParseError::UrlParseError(m)) => Err(AnalyzerError::UrlParseError(m)),
            Err(LinkParseError::LinkParseError(m)) => Err(AnalyzerError::UrlParseError(m)),
        }
    }

    /// Gathers the analyses of a crawl, given the HTML fetched for the pages
    /// that have none (see `unanalyzed_urls`), or the message of each failed
    /// fetch, under the page's URL: see `crawl_analysis`.
    pub fn analyze_crawl_result(&self, crawl_result: CrawlResult, fetched: &TextMap<Result<String, String>>) -> (res: Result<AnalysisProgress, AnalyzerError>)
        requires
            crawl_result.urls.wf(),
            fetched.wf(),
            page_queries_valid(),
            fetched_classifiable(crawl_result.urls, fetched.as_map()),
        ensures
            crawl_analysis(res, crawl_result.urls, fetched.as_map()),
    {
        let ghost urls = crawl_result.urls;
        let ghost keys = crawl_result.urls.key_seq();
        let ghost vals = crawl_result.urls.value_seq();
        let ghost es = crawl_entries(urls);
        let ghost bad = unreadable_pred();
        let ghost done_p = complete_pred();
        let ghost fm = fetched.as_map();
        proof { crawl_result.urls.lemma_shape(); fetched.lemma_shape(); }
        let n = crawl_result.urls.len();
        let mut entries = crawl_result.urls.into_entries();
        let ghost ents = entries@;
        let mut results: TextMap<AnalysisResult> = TextMap::new();
        let mut done: usize = 0;
        let mut k: usize = 0;
        assert(es.take(0) =~= Seq::<(Seq<char>, UrlSource)>::empty());
        proof { results.lemma_shape(); }
        assert(results.value_seq() =~= Seq::<AnalysisResult>::empty());
        while k < n
            invariant
                0 <= k <= n,
                n == keys.len(),
                keys.len() == vals.len(),
                keys == urls.key_seq(),
                vals == urls.value_seq(),
                es == crawl_entries(urls),
                bad == unreadable_pred(),
                done_p == complete_pred(),
                fm == fetched.as_map(),
                urls == crawl_result.urls,
                fetched.wf(),
                page_queries_valid(),
                fetched_classifiable(urls, fm),
                keys_of(ents) == keys,
                ents.map_values(|e: (String, UrlSource)| e.1) == vals,
                crate::text_map::distinct_keys(keys),
                entries@ == ents.skip(k as int),
                first_match(es.take(k as int), bad) is None,
                results.wf(),
                results.key_seq() == keys.take(k as int),
                forall|j: int| 0 <= j < k ==> page_outcome(#[trigger] results.value_seq()[j], keys[j], vals[j], fm),
                done as nat == count_where(results.value_seq(), done_p),
                done <= k,
            decreases n - k,
        {
            let (url, source) = entries.remove(0);
            assert(ents[k as int] == (url, source));
            assert(keys[k as int] == url@);
            assert(vals[k as int] == source);
            assert(es[k as int] == (url@, source));
            let result = match source.analysis {
                Some(a) => AnalysisResult { analysis: a, status: AnalysisStatus::Complete },
                None => {
                    let parser = match PageParser::new(url.as_str()) {
                        Ok(p) => p,
                        Err(e) => {
                            // This is the first page that cannot be read.
                            assert(bad(es[k as int]));
                            proof { lemma_first_match_prefix(es, bad, k as int); }
                            let r: Result<AnalysisProgress, AnalyzerError> = Err(AnalyzerError::PageParserError(e));
                            return r;
                        },
                    };
                    let base = match to_url(url.as_str()) {
                        Ok(u) => u,
                        Err(LinkParseError::UrlParseError(m)) => { return Err(AnalyzerError::UrlParseError(m)); },
                        Err(LinkParseError::LinkParseError(m)) => { return Err(AnalyzerError::UrlParseError(m)); },
                    };
                    match fetched.get(url.as_str()) {
                        Some(Ok(h)) => {
                            let mut parser = parser;
                            parser.set_content(crate::text::owned(h.as_str()));
                            assert(fm.dom().contains(keys[k as int]));
                            assert(vals[k as int].analysis is None);
                            match parser.analyze_page() {
                                Ok(a) => AnalysisResult { analysis: a, status: AnalysisStatus::Complete },
                                Err(e) => { return Err(AnalyzerError::PageParserError(e)); },
                            }
                        },
                        Some(Err(m)) => AnalysisResult {
                            analysis: blank_page_analysis(&base),
                            status: AnalysisStatus::Failed(crate::text::owned(m.as_str())),
                        },
                        None => AnalysisResult { analysis: blank_page_analysis(&base), status: AnalysisStatus::Pending },
                    }
                },
            };
            assert(page_outcome(result, keys[k as int], vals[k as int], fm));
            let is_done = match result.status {
                AnalysisStatus::Complete => true,
                _ => false,
            };
            proof {
                results.lemma_shape();
                if results.key_seq().contains(url@) {
                    let j = choose|j: int| 0 <= j < results.key_seq().len() && results.key_seq()[j] == url@;
                    assert(keys[j] == keys[k as int]);
                }
            }
            let ghost before = results.value_seq();
            let ghost rv = result;
            results.insert(url, result);
            proof {
                results.lemma_shape();
                assert(keys.take(k + 1) =~= keys.take(k as int).push(keys[k as int]));
                assert(results.as_map()[results.key_seq()[k as int]] == results.value_seq()[k as int]);
                assert(results.value_seq() =~= before.push(rv));
                lemma_count_push(before, done_p, rv);
                assert(es.take(k + 1).drop_last() =~= es.take(k as int));
                assert(es.take(k + 1).last() == es[k as int]);
                assert(!bad(es[k as int]));
            }
            if is_done {
                done = done + 1;
            }
            assert(entries@ =~= ents.skip(k + 1));
            k = k + 1;
        }
        proof { lemma_first_match_prefix(es, bad, n as int); }
        assert(keys.take(n as int) =~= keys);
        Ok(AnalysisProgress { total_urls: n as u32, completed_urls: done as u32, results })
    }

    /// `analyze_crawl_result`, where the fetched HTML of every page that is
    /// read has links that can be classified; nothing otherwise.
    pub fn try_analyze_crawl_result(&self, crawl_result: CrawlResult, fetched: &TextMap<Result<String, String>>) -> (res: Option<Result<AnalysisProgress, AnalyzerError>>)
        requires
            crawl_result.urls.wf(),
            fetched.wf(),
            page_queries_valid(),
        ensures
            res is Some <==> fetched_classifiable(crawl_result.urls, fetched.as_map()),
            res matches Some(r) ==> crawl_analysis(r, crawl_result.urls, fetched.as_map()),
    {
        let n = crawl_result.urls.len();
        let mut i: usize = 0;
        proof { fetched.lemma_shape(); }
        while i < n
            invariant
                0 <= i <= n,
                n == crawl_result.urls.key_seq().len(),
                fetched.wf(),
                page_queries_valid(),
                forall|j: int| 0 <= j < i && (#[trigger] crawl_result.urls.value_seq()[j]).analysis is None
                    && spec_url_parse(crawl_result.urls.key_seq()[j]) is Ok && fetched.as_map().dom().contains(crawl_result.urls.key_seq()[j])
                    ==> (fetched.as_map()[crawl_result.urls.key_seq()[j]] matches Ok(h) ==> links_classifiable(h@, spec_url_parse(crawl_result.urls.key_seq()[j])->Ok_0)),
            decreases n - i,
        {
            let (url, source) = crawl_result.urls.entry_at(i);
            if source.analysis.is_none() {
                if let Ok(u) = to_url(url.as_str()) {
                    if let Some(Ok(h)) = fetched.get(url.as_str()) {
                        if !crate::seo_analyzer::crawler::Crawler::can_classify(&u, h.as_str()) {
                            return None;
                        }
                    }
                }
            }
            i = i + 1;
        }
        Some(self.analyze_crawl_result(crawl_result, fetched))
    }
}

} // verus!
