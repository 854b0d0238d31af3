//! The crawl of a site: the table of links found so far, what was found on
//! each page, and the results of the rules.
use vstd::prelude::*;
use crate::text::{owned, str_eq, to_chars};
use crate::text_map::TextMap;
use crate::web_url::{parse_url, spec_url_parse, WebUrl};
use super::utils::config::{results_view, clone_results, strings_view, ContextModel, RuleResult, RuleResultModel, SiteCheckContext};
use super::utils::link_parser::{link_error_message, link_resolvable, link_target, link_type_of, parse_link_from, to_url, LinkParseError, LinkType};
use super::utils::registry::{default_page_plugins, default_rule_ids, default_site_models, hooked, plugins_rules, site_results, PluginRegistry, SitePluginModel};
use super::plugins::{analysis_results, lemma_records_view, some_rule_fails};
use super::utils::link_parser::Link;
use super::utils::page::{hrefs_of, page_queries_valid, Page, PageError};
use crate::html_doc::spec_select;
use crate::web_url::spec_url_join;
use super::utils::sitemap_parser::SitemapParserError;
use super::plugins::{count_where, keep_where, lemma_count_all, lemma_count_mono, lemma_count_step};

verus! {

/// How a link was found.
#[derive(Clone, Copy, Debug, PartialEq, Eq, Structural)]
pub enum LinkSourceType {
    Sitemap,
    Root,
    Link,
}

/// Where a link was found: how, and on (or for) which URL.
#[derive(Debug)]
pub struct PageLinkSource {
    pub link_source_type: LinkSourceType,
    pub url: String,
}

/// What the rules found on a page, or that the page could not be read.
pub struct PageResult {
    pub error: bool,
    pub results: Vec<RuleResult>,
}

/// A link of the site, where it was found, and what was found on its page.
pub struct PageLink {
    pub url: String,
    pub link_type: LinkType,
    pub found_in: Vec<PageLinkSource>,
    pub result: Option<PageResult>,
}

/// The view of a page result.
pub struct PageResultModel {
    pub error: bool,
    pub results: Seq<RuleResultModel>,
}

/// The view of a link.
pub struct LinkModel {
    pub url: Seq<char>,
    pub link_type: LinkType,
    pub found_in: Seq<(LinkSourceType, Seq<char>)>,
    pub result: Option<PageResultModel>,
}

/// The view of a link source.
pub open spec fn source_view(s: PageLinkSource) -> (LinkSourceType, Seq<char>) {
    (s.link_source_type, s.url@)
}

/// The views of a sequence of link sources.
pub open spec fn sources_view(v: Seq<PageLinkSource>) -> Seq<(LinkSourceType, Seq<char>)> {
    v.map_values(|s: PageLinkSource| source_view(s))
}

impl PageLinkSource {
    /// A copy of this source.
    pub fn duplicate(&self) -> (res: Self)
        ensures
            source_view(res) == source_view(*self),
    {
        PageLinkSource { link_source_type: self.link_source_type, url: self.url.clone() }
    }
}

impl PageResult {
    /// The view of this result.
    pub open spec fn model(&self) -> PageResultModel {
        PageResultModel { error: self.error, results: results_view(self.results@) }
    }

    /// A copy of this result.
    pub fn duplicate(&self) -> (res: Self)
        ensures
            res.model() == self.model(),
    {
        PageResult { error: self.error, results: clone_results(&self.results) }
    }
}

/// The view of an optional page result.
pub open spec fn result_view(r: Option<PageResult>) -> Option<PageResultModel> {
    match r {
        Some(p) => Some(p.model()),
        None => None,
    }
}

/// A copy of a sequence of link sources.
pub fn clone_sources(v: &Vec<PageLinkSource>) -> (res: Vec<PageLinkSource>)
    ensures
        sources_view(res@) == sources_view(v@),
{
    let mut out: Vec<PageLinkSource> = Vec::new();
    for i in 0..v.len()
        invariant
            sources_view(out@) == sources_view(v@.take(i as int)),
    {
        let ghost prev = out@;
        let x = v[i].duplicate();
        out.push(x);
        assert(v@.take(i + 1) =~= v@.take(i as int).push(v@[i as int]));
        assert(sources_view(out@) =~= sources_view(prev).push(source_view(x)));
        assert(sources_view(v@.take(i + 1)) =~= sources_view(v@.take(i as int)).push(source_view(v@[i as int])));
    }
    assert(v@.take(v@.len() as int) =~= v@);
    out
}

impl PageLink {
    /// The view of this link.
    pub open spec fn model(&self) -> LinkModel {
        LinkModel {
            url: self.url@,
            link_type: self.link_type,
            found_in: sources_view(self.found_in@),
            result: result_view(self.result),
        }
    }

    /// A copy of this link.
    pub fn duplicate(&self) -> (res: Self)
        ensures
            res.model() == self.model(),
    {
        PageLink {
            url: self.url.clone(),
            link_type: self.link_type,
            found_in: clone_sources(&self.found_in),
            result: match &self.result {
                Some(r) => Some(r.duplicate()),
                None => None,
            },
        }
    }
}

/// Where a crawl ended: every link with what was found on it, the results of
/// the site rules, and the number of links.
pub struct CrawlResult {
    pub page_results: Vec<PageLink>,
    pub site_result: Vec<RuleResult>,
    pub total_pages: u32,
}

/// What a progress report is about.
pub enum AnalysisProgressType {
    FoundLink,
    AnalyzedPage(PageLink),
    AnalyzedSite(Vec<RuleResult>),
}

/// A progress report of a crawl.
pub struct AnalysisProgress {
    pub progress_type: AnalysisProgressType,
    pub url: Option<String>,
    pub total_pages: u32,
    pub completed_pages: u32,
}

/// Why a crawl step failed.
#[derive(Debug)]
pub enum SiteAnalyzerError {
    UrlParseError(LinkParseError),
    UrlJoinError(String),
    PageError(PageError),
    SitemapParserError(SitemapParserError),
    LinkNotFound(String),
}

/// The position of the first `c` in `s`, if there is one.
pub open spec fn first_index_of(s: Seq<char>, c: char) -> Option<int>
    decreases s.len(),
{
    if s.len() == 0 {
        None
    } else {
        match first_index_of(s.drop_last(), c) {
            Some(i) => Some(i),
            None => if s.last() == c { Some(s.len() - 1) } else { None },
        }
    }
}

/// `s` up to (not including) its first `c`.
pub open spec fn cut_at(s: Seq<char>, c: char) -> Seq<char> {
    match first_index_of(s, c) {
        Some(i) => s.take(i),
        None => s,
    }
}

/// A URL without its query and fragment: cut at the first `?`, then at the
/// first `#`.
pub open spec fn clean_url_spec(s: Seq<char>) -> Seq<char> {
    cut_at(cut_at(s, '?'), '#')
}

/// Where the first `c` of a text lies among its prefixes.
pub proof fn lemma_first_index_prefix(s: Seq<char>, c: char, n: int)
    requires
        0 <= n <= s.len(),
    ensures
        (first_index_of(s.take(n), c) matches Some(i) ==> first_index_of(s, c) == Some(i)),
        (first_index_of(s.take(n), c) is None && n < s.len() && s[n] == c ==> first_index_of(s, c) == Some(n)),
        (first_index_of(s.take(n), c) matches Some(i) ==> 0 <= i < n && s[i] == c),
    decreases s.len() - n,
{
    if n < s.len() {
        lemma_first_index_prefix(s, c, n + 1);
        assert(s.take(n + 1).drop_last() =~= s.take(n));
        assert(s.take(n + 1).last() == s[n]);
    } else {
        assert(s.take(n) =~= s);
    }
    if first_index_of(s.take(n), c) is Some {
        lemma_first_index_bounds(s.take(n), c);
    }
}

/// The first `c` lies within the text and is a `c`.
pub proof fn lemma_first_index_bounds(s: Seq<char>, c: char)
    ensures
        first_index_of(s, c) matches Some(i) ==> 0 <= i < s.len() && s[i] == c,
    decreases s.len(),
{
    if s.len() > 0 {
        lemma_first_index_bounds(s.drop_last(), c);
    }
}

/// `s` up to its first `c`.
fn cut_text_at(s: &str, c: char) -> (res: String)
    ensures
        res@ == cut_at(s@, c),
{
    let cs = to_chars(s);
    let mut i: usize = 0;
    assert(s@.take(0) =~= Seq::<char>::empty());
    while i < cs.len()
        invariant
            cs@ == s@,
            0 <= i <= cs@.len(),
            first_index_of(s@.take(i as int), c) is None,
        decreases cs@.len() - i,
    {
        if cs[i] == c {
            proof { lemma_first_index_prefix(s@, c, i as int); }
            let r = s.substring_char(0, i);
            assert(r@ =~= s@.take(i as int));
            return r.to_owned();
        }
        assert(s@.take(i + 1).drop_last() =~= s@.take(i as int));
        assert(s@.take(i + 1).last() == s@[i as int]);
        i = i + 1;
    }
    assert(s@.take(cs@.len() as int) =~= s@);
    s.to_owned()
}

/// The URL without its query and fragment.
pub fn clean_url(url: String) -> (res: String)
    ensures
        res@ == clean_url_spec(url@),
{
    let without_query = cut_text_at(url.as_str(), '?');
    cut_text_at(without_query.as_str(), '#')
}

/// No element occurs twice.
pub open spec fn no_repeats<T>(s: Seq<T>) -> bool {
    forall|i: int, j: int| 0 <= i < s.len() && 0 <= j < s.len() && i != j ==> s[i] != s[j]
}

/// The sources with `src` added, unless it is there already.
pub open spec fn add_source_model(f: Seq<(LinkSourceType, Seq<char>)>, src: (LinkSourceType, Seq<char>)) -> Seq<(LinkSourceType, Seq<char>)> {
    if f.contains(src) { f } else { f.push(src) }
}

/// The link stored under `key` once it has been found (again) at `src`: a
/// known link gains the source, a new one starts with it and no result.
pub open spec fn added_link(m: Map<Seq<char>, LinkModel>, key: Seq<char>, link_type: LinkType, src: (LinkSourceType, Seq<char>)) -> LinkModel {
    if m.dom().contains(key) {
        LinkModel { found_in: add_source_model(m[key].found_in, src), ..m[key] }
    } else {
        LinkModel { url: key, link_type, found_in: seq![src], result: None }
    }
}

/// A link once `res` has been recorded for it: a link without a result takes
/// it; a link with one gains the new rule results, if there are any.
pub open spec fn recorded_link(l: LinkModel, res: PageResultModel) -> LinkModel {
    match l.result {
        None => LinkModel { result: Some(res), ..l },
        Some(r) => if res.results.len() > 0 {
            LinkModel { result: Some(PageResultModel { error: r.error, results: r.results + res.results }), ..l }
        } else {
            l
        },
    }
}

/// The link is internal and has not been analyzed yet.
pub open spec fn is_pending(p: (Seq<char>, LinkModel)) -> bool {
    p.1.link_type == LinkType::Internal && p.1.result is None
}

/// The link is internal.
pub open spec fn is_internal(l: LinkModel) -> bool {
    l.link_type == LinkType::Internal
}

/// The link is internal and has been analyzed.
pub open spec fn is_completed(l: LinkModel) -> bool {
    l.link_type == LinkType::Internal && l.result is Some
}

/// Adds `src` to the sources unless it is there already.
fn add_source(found: &mut Vec<PageLinkSource>, src: PageLinkSource)
    requires
        no_repeats(sources_view(old(found)@)),
    ensures
        sources_view(final(found)@) == add_source_model(sources_view(old(found)@), source_view(src)),
        no_repeats(sources_view(final(found)@)),
{
    let ghost sv = sources_view(found@);
    let mut i: usize = 0;
    while i < found.len()
        invariant
            0 <= i <= found@.len(),
            sv == sources_view(found@),
            no_repeats(sv),
            forall|j: int| 0 <= j < i ==> sv[j] != source_view(src),
        decreases found@.len() - i,
    {
        if found[i].link_source_type == src.link_source_type && found[i].url == src.url {
            assert(sv[i as int] == source_view(src));
            assert(sv.contains(source_view(src)));
            return;
        }
        i = i + 1;
    }
    assert(!sv.contains(source_view(src)));
    let ghost x = source_view(src);
    found.push(src);
    assert(sources_view(found@) =~= sv.push(x));
}

/// The links found during a crawl, keyed by URL without query and fragment,
/// in the order in which they were first found.
pub struct SiteLinks {
    table: TextMap<PageLink>,
}

impl SiteLinks {
    /// The table is well formed and no link lists a source twice.
    pub closed spec fn wf(&self) -> bool {
        &&& self.table.wf()
        &&& forall|i: int| 0 <= i < self.table.value_seq().len() ==> no_repeats(#[trigger] self.table.value_seq()[i].model().found_in)
    }

    /// The keys, in the order in which they were first found.
    pub closed spec fn keys(&self) -> Seq<Seq<char>> {
        self.table.key_seq()
    }

    /// The links, in the order of `keys`.
    pub closed spec fn entries(&self) -> Seq<LinkModel> {
        self.table.value_seq().map_values(|l: PageLink| l.model())
    }

    /// The link stored under each key.
    pub closed spec fn map(&self) -> Map<Seq<char>, LinkModel> {
        self.table.as_map().map_values(|l: PageLink| l.model())
    }

    /// Each key with its link, in order.
    pub open spec fn pairs(&self) -> Seq<(Seq<char>, LinkModel)> {
        Seq::new(self.keys().len(), |i: int| (self.keys()[i], self.entries()[i]))
    }

    /// Keys and links line up, and the map is made of them.
    pub proof fn lemma_shape(&self)
        requires
            self.wf(),
        ensures
            crate::text_map::distinct_keys(self.keys()),
            self.keys().len() == self.entries().len(),
            forall|k: Seq<char>| #[trigger] self.map().dom().contains(k) <==> self.keys().contains(k),
            forall|i: int| 0 <= i < self.keys().len() ==> #[trigger] self.map()[self.keys()[i]] == self.entries()[i],
            forall|i: int| 0 <= i < self.entries().len() ==> no_repeats(#[trigger] self.entries()[i].found_in),
    {
        self.table.lemma_shape();
        assert forall|i: int| 0 <= i < self.keys().len() implies #[trigger] self.map()[self.keys()[i]] == self.entries()[i] by {
            assert(self.table.as_map()[self.table.key_seq()[i]] == self.table.value_seq()[i]);
        }
        assert forall|i: int| 0 <= i < self.entries().len() implies no_repeats(#[trigger] self.entries()[i].found_in) by {
            assert(self.entries()[i] == self.table.value_seq()[i].model());
        }
    }

    /// No links.
    pub fn new() -> (res: Self)
        ensures
            res.wf(),
            res.keys().len() == 0,
            res.map() == Map::<Seq<char>, LinkModel>::empty(),
    {
        let res = SiteLinks { table: TextMap::new() };
        proof { res.table.lemma_shape(); }
        assert(res.map() =~= Map::<Seq<char>, LinkModel>::empty());
        res
    }

    /// The number of links.
    pub fn len(&self) -> (res: usize)
        requires
            self.wf(),
        ensures
            res == self.keys().len(),
    {
        self.table.len()
    }

    /// The link stored under `key`.
    pub fn get(&self, key: &str) -> (res: Option<&PageLink>)
        requires
            self.wf(),
        ensures
            match res {
                Some(l) => self.map().dom().contains(key@) && l.model() == self.map()[key@],
                None => !self.map().dom().contains(key@),
            },
    {
        self.table.get(key)
    }

    /// The key and link at position `i`.
    pub fn entry_at(&self, i: usize) -> (res: (&String, &PageLink))
        requires
            self.wf(),
            i < self.keys().len(),
        ensures
            res.0@ == self.keys()[i as int],
            res.1.model() == self.entries()[i as int],
    {
        proof { self.lemma_shape(); }
        self.table.entry_at(i)
    }

    /// Records that the link `key` (of kind `link_type`) was found at `src`.
    /// Says whether the link is new.
    pub fn add(&mut self, key: String, link_type: LinkType, src: PageLinkSource) -> (res: bool)
        requires
            old(self).wf(),
        ensures
            final(self).wf(),
            res == !old(self).map().dom().contains(key@),
            final(self).map() == old(self).map().insert(key@, added_link(old(self).map(), key@, link_type, source_view(src))),
            res ==> final(self).keys() == old(self).keys().push(key@),
            !res ==> final(self).keys() == old(self).keys(),
    {
        proof { self.lemma_shape(); self.table.lemma_shape(); }
        let ghost old_map = self.map();
        let ghost k = key@;
        let ghost sv = source_view(src);
        let ghost old_vals = self.table.value_seq();
        let ghost old_keys = self.table.key_seq();
        let is_new;
        let link = match self.table.get(key.as_str()) {
            Some(l) => {
                is_new = false;
                proof {
                    let idx = old_keys.index_of(k);
                    assert(old_keys[idx] == k);
                    assert(self.entries()[idx] == l.model());
                }
                let mut l2 = l.duplicate();
                add_source(&mut l2.found_in, src);
                l2
            },
            None => {
                is_new = true;
                let found_in = vec![src];
                assert(sources_view(found_in@) =~= seq![sv]);
                PageLink { url: key.clone(), link_type, found_in, result: None }
            },
        };
        let ghost lm = link.model();
        assert(lm == added_link(old_map, k, link_type, sv));
        self.table.insert(key, link);
        proof {
            self.table.lemma_shape();
            assert forall|i: int| 0 <= i < self.table.value_seq().len() implies no_repeats(#[trigger] self.table.value_seq()[i].model().found_in) by {
                if self.table.key_seq()[i] == k {
                    assert(self.table.as_map()[self.table.key_seq()[i]] == self.table.value_seq()[i]);
                } else {
                    assert(self.table.value_seq()[i] == old_vals[i]);
                    assert(old_vals[i].model() == self.entries()[i]) by {
                        assert(self.table.value_seq()[i] == old_vals[i]);
                    };
                }
            }
            assert(self.map() =~= old_map.insert(k, lm));
        }
        is_new
    }

    /// Records `result` for the link `key`, and hands back the link as it
    /// now stands; nothing when there is no such link.
    pub fn record(&mut self, key: &str, result: PageResult) -> (res: Option<PageLink>)
        requires
            old(self).wf(),
        ensures
            final(self).wf(),
            final(self).keys() == old(self).keys(),
            match res {
                Some(l) => old(self).map().dom().contains(key@)
                    && final(self).map() == old(self).map().insert(key@, recorded_link(old(self).map()[key@], result.model()))
                    && l.model() == recorded_link(old(self).map()[key@], result.model()),
                None => !old(self).map().dom().contains(key@) && final(self).map() == old(self).map(),
            },
    {
        proof { self.lemma_shape(); self.table.lemma_shape(); }
        let ghost old_map = self.map();
        let ghost k = key@;
        let ghost rm = result.model();
        let ghost old_vals = self.table.value_seq();
        let ghost old_keys = self.table.key_seq();
        let mut result = result;
        let l = match self.table.get(key) {
            Some(l) => l,
            None => { return None; },
        };
        proof {
            let idx = old_keys.index_of(k);
            assert(old_keys[idx] == k);
            assert(self.entries()[idx] == l.model());
        }
        let mut l2 = l.duplicate();
        let new_result = match &l2.result {
            None => Some(result),
            Some(r) => {
                if result.results.len() > 0 {
                    let mut rs = clone_results(&r.results);
                    let ghost before = rs@;
                    rs.append(&mut result.results);
                    assert(results_view(rs@) =~= results_view(before) + rm.results);
                    Some(PageResult { error: r.error, results: rs })
                } else {
                    Some(r.duplicate())
                }
            },
        };
        l2.result = new_result;
        let ghost lm = l2.model();
        assert(lm == recorded_link(old_map[k], rm));
        let out = l2.duplicate();
        self.table.insert(owned(key), l2);
        proof {
            self.table.lemma_shape();
            assert forall|i: int| 0 <= i < self.table.value_seq().len() implies no_repeats(#[trigger] self.table.value_seq()[i].model().found_in) by {
                if self.table.key_seq()[i] == k {
                    assert(self.table.as_map()[self.table.key_seq()[i]] == self.table.value_seq()[i]);
                } else {
                    assert(self.table.value_seq()[i] == old_vals[i]);
                }
            }
            assert(self.map() =~= old_map.insert(k, lm));
        }
        Some(out)
    }

    /// The keys of the internal links that have no result yet, in order.
    pub fn unprocessed_internal(&self) -> (res: Vec<String>)
        requires
            self.wf(),
        ensures
            res@.map_values(|s: String| s@) == keep_where(self.pairs(), |p: (Seq<char>, LinkModel)| is_pending(p)).map_values(|p: (Seq<char>, LinkModel)| p.0),
    {
        proof { self.lemma_shape(); }
        let ghost pr = self.pairs();
        let ghost pred = |p: (Seq<char>, LinkModel)| is_pending(p);
        let mut out: Vec<String> = Vec::new();
        let n = self.table.len();
        assert(pr.take(0) =~= Seq::<(Seq<char>, LinkModel)>::empty());
        for i in 0..n
            invariant
                self.wf(),
                n == self.keys().len(),
                pr == self.pairs(),
                pr.len() == n,
                pred == (|p: (Seq<char>, LinkModel)| is_pending(p)),
                out@.map_values(|s: String| s@) == keep_where(pr.take(i as int), pred).map_values(|p: (Seq<char>, LinkModel)| p.0),
        {
            let (k, l) = self.entry_at(i);
            assert(pr.take(i + 1).drop_last() =~= pr.take(i as int));
            assert(pr.take(i + 1).last() == pr[i as int]);
            assert(pr[i as int] == (k@, l.model()));
            let ghost prev = out@;
            if l.link_type == LinkType::Internal && l.result.is_none() {
                out.push(k.clone());
                assert(out@.map_values(|s: String| s@) =~= prev.map_values(|s: String| s@).push(k@));
            }
        }
        assert(pr.take(n as int) =~= pr);
        out
    }

    /// How many links are internal, and how many of those have a result.
    pub fn progress_counts(&self) -> (res: (usize, usize))
        requires
            self.wf(),
        ensures
            res.0 == count_where(self.entries(), |l: LinkModel| is_internal(l)),
            res.1 == count_where(self.entries(), |l: LinkModel| is_completed(l)),
            res.1 <= res.0,
    {
        proof { self.lemma_shape(); }
        let ghost es = self.entries();
        let ghost pi = |l: LinkModel| is_internal(l);
        let ghost pc = |l: LinkModel| is_completed(l);
        let n = self.table.len();
        let mut total: usize = 0;
        let mut done: usize = 0;
        for i in 0..n
            invariant
                self.wf(),
                n == es.len(),
                es == self.entries(),
                pi == (|l: LinkModel| is_internal(l)),
                pc == (|l: LinkModel| is_completed(l)),
                total == count_where(es.take(i as int), pi),
                done == count_where(es.take(i as int), pc),
                total <= i,
                done <= i,
        {
            proof {
                lemma_count_step(es, pi, i as int);
                lemma_count_step(es, pc, i as int);
                self.lemma_shape();
            }
            let (_, l) = self.entry_at(i);
            if l.link_type == LinkType::Internal {
                total = total + 1;
                if l.result.is_some() {
                    done = done + 1;
                }
            }
        }
        proof {
            lemma_count_all(es, pi);
            lemma_count_all(es, pc);
            lemma_count_mono(es, pc, pi);
        }
        (total, done)
    }

    /// Every link, in order.
    pub fn all_links(&self) -> (res: Vec<PageLink>)
        requires
            self.wf(),
        ensures
            res@.map_values(|l: PageLink| l.model()) == self.entries(),
    {
        proof { self.lemma_shape(); }
        let n = self.table.len();
        let mut out: Vec<PageLink> = Vec::new();
        for i in 0..n
            invariant
                self.wf(),
                n == self.entries().len(),
                n == self.keys().len(),
                out@.map_values(|l: PageLink| l.model()) == self.entries().take(i as int),
        {
            let (_, l) = self.entry_at(i);
            let ghost prev = out@;
            let c = l.duplicate();
            out.push(c);
            assert(out@.map_values(|l: PageLink| l.model()) =~= prev.map_values(|l: PageLink| l.model()).push(c.model()));
            assert(self.entries().take(i + 1) =~= self.entries().take(i as int).push(self.entries()[i as int]));
        }
        assert(self.entries().take(n as int) =~= self.entries());
        out
    }
}


/// The view of the link table: the keys in the order in which they were
/// first found, and the link under each key.
pub struct LinksModel {
    pub keys: Seq<Seq<char>>,
    pub map: Map<Seq<char>, LinkModel>,
}

/// The links of a table, in the order of its keys.
pub open spec fn model_entries(st: LinksModel) -> Seq<LinkModel> {
    st.keys.map_values(|k: Seq<char>| st.map[k])
}

/// Each key of a table with its link, in order.
pub open spec fn model_pairs(st: LinksModel) -> Seq<(Seq<char>, LinkModel)> {
    st.keys.map_values(|k: Seq<char>| (k, st.map[k]))
}

/// The table once the link `key` (of kind `link_type`) was found at `src`.
pub open spec fn add_to(st: LinksModel, key: Seq<char>, link_type: LinkType, src: (LinkSourceType, Seq<char>)) -> LinksModel {
    LinksModel {
        keys: if st.map.dom().contains(key) { st.keys } else { st.keys.push(key) },
        map: st.map.insert(key, added_link(st.map, key, link_type, src)),
    }
}

/// The table once `res` was recorded for the link `key`; nothing when there
/// is no such link.
pub open spec fn record_in(st: LinksModel, key: Seq<char>, res: PageResultModel) -> Option<LinksModel> {
    if st.map.dom().contains(key) {
        Some(LinksModel { keys: st.keys, map: st.map.insert(key, recorded_link(st.map[key], res)) })
    } else {
        None
    }
}

/// What a progress report is about, as a view.
pub enum ProgressKindModel {
    FoundLink,
    AnalyzedPage(LinkModel),
    AnalyzedSite(Seq<RuleResultModel>),
}

/// The view of a progress report.
pub struct ProgressModel {
    pub kind: ProgressKindModel,
    pub url: Option<Seq<char>>,
    pub total_pages: u32,
    pub completed_pages: u32,
}

/// The report `kind` about `url` on the table `st`: it counts the internal
/// links, and those of them that have a result.
pub open spec fn progress_at(kind: ProgressKindModel, url: Option<Seq<char>>, st: LinksModel) -> ProgressModel {
    ProgressModel {
        kind,
        url,
        total_pages: count_where(model_entries(st), |l: LinkModel| is_internal(l)) as u32,
        completed_pages: count_where(model_entries(st), |l: LinkModel| is_completed(l)) as u32,
    }
}

impl AnalysisProgressType {
    /// The view of this kind of report.
    pub open spec fn model(&self) -> ProgressKindModel {
        match self {
            AnalysisProgressType::FoundLink => ProgressKindModel::FoundLink,
            AnalysisProgressType::AnalyzedPage(l) => ProgressKindModel::AnalyzedPage(l.model()),
            AnalysisProgressType::AnalyzedSite(r) => ProgressKindModel::AnalyzedSite(results_view(r@)),
        }
    }
}

impl AnalysisProgress {
    /// The view of this report.
    pub open spec fn model(&self) -> ProgressModel {
        ProgressModel {
            kind: self.progress_type.model(),
            url: match self.url { Some(u) => Some(u@), None => None },
            total_pages: self.total_pages,
            completed_pages: self.completed_pages,
        }
    }
}

/// The views of a sequence of reports.
pub open spec fn progress_view(v: Seq<AnalysisProgress>) -> Seq<ProgressModel> {
    v.map_values(|p: AnalysisProgress| p.model())
}

/// The key under which the link `href` found on the site at `base` is
/// stored: the URL it leads to, without query and fragment.
pub open spec fn link_key(href: Seq<char>, base: Seq<char>) -> Seq<char> {
    clean_url_spec(link_target(href, base))
}

/// The table and the reports once the link `href` was found at `src` on the
/// site at `base`; nothing when the link cannot be resolved. A new link is
/// reported.
pub open spec fn add_link_model(st: LinksModel, href: Seq<char>, base: Seq<char>, src: (LinkSourceType, Seq<char>)) -> Option<(LinksModel, Seq<ProgressModel>)> {
    if link_resolvable(href, base) {
        let key = link_key(href, base);
        let st2 = add_to(st, key, link_type_of(link_target(href, base), base), src);
        let ev = if st.map.dom().contains(key) {
            Seq::empty()
        } else {
            seq![progress_at(ProgressKindModel::FoundLink, Some(key), st2)]
        };
        Some((st2, ev))
    } else {
        None
    }
}

/// The table and the report once `res` was recorded for the page `key`;
/// nothing when there is no such link.
pub open spec fn record_model(st: LinksModel, key: Seq<char>, res: PageResultModel) -> Option<(LinksModel, ProgressModel)> {
    match record_in(st, key, res) {
        Some(st2) => Some((st2, progress_at(ProgressKindModel::AnalyzedPage(st2.map[key]), Some(key), st2))),
        None => None,
    }
}

impl SiteLinks {
    /// The view of the table.
    pub open spec fn view(&self) -> LinksModel {
        LinksModel { keys: self.keys(), map: self.map() }
    }

    /// The links in order are those the keys lead to.
    pub proof fn lemma_entries(&self)
        requires
            self.wf(),
        ensures
            self.entries() == model_entries(self.view()),
            self.pairs() == model_pairs(self.view()),
    {
        self.lemma_shape();
        assert(self.entries() =~= model_entries(self.view()));
        assert(self.pairs() =~= model_pairs(self.view()));
    }

    /// The report `kind` about `url` on this table.
    pub fn progress(&self, kind: AnalysisProgressType, url: Option<String>) -> (res: AnalysisProgress)
        requires
            self.wf(),
        ensures
            res.model() == progress_at(kind.model(), match url { Some(u) => Some(u@), None => None }, self.view()),
    {
        let (total, done) = self.progress_counts();
        proof { self.lemma_entries(); }
        AnalysisProgress { progress_type: kind, url, total_pages: total as u32, completed_pages: done as u32 }
    }
}

/// Crawls a site: the links found so far, and the plugins that analyze the
/// pages.
pub struct SiteAnalyzer {
    url: WebUrl,
    links: SiteLinks,
    registry: PluginRegistry,
}

impl SiteAnalyzer {
    /// The links and the registry are well formed.
    pub closed spec fn wf(&self) -> bool {
        self.links.wf() && self.registry.wf()
    }

    /// The URL of the site.
    pub closed spec fn base(&self) -> Seq<char> {
        self.url@
    }

    /// The links found so far.
    pub closed spec fn links_view(&self) -> LinksModel {
        self.links.view()
    }

    /// The plugins.
    pub closed spec fn registry_view(&self) -> PluginRegistry {
        self.registry
    }

    /// An analyzer for the site at `url` with the plugins of `registry`;
    /// fails with `UrlParseError` when `url` does not parse.
    pub fn new(url: &str, registry: PluginRegistry) -> (res: Result<Self, SiteAnalyzerError>)
        requires
            registry.wf(),
        ensures
            match spec_url_parse(url@) {
                Ok(u) => res matches Ok(a) && a.wf() && a.base() == u && a.registry_view() == registry
                    && a.links_view().keys.len() == 0 && a.links_view().map == Map::<Seq<char>, LinkModel>::empty(),
                Err(m) => res matches Err(SiteAnalyzerError::UrlParseError(LinkParseError::UrlParseError(e))) && e@ == m,
            },
    {
        let url = match to_url(url) {
            Ok(u) => u,
            Err(e) => { return Err(SiteAnalyzerError::UrlParseError(e)); },
        };
        Ok(SiteAnalyzer { url, links: SiteLinks::new(), registry })
    }

    /// An analyzer for the site at `url` with the default plugins and every
    /// rule switched on.
    pub fn new_with_default(url: &str) -> (res: Result<Self, SiteAnalyzerError>)
        ensures
            match spec_url_parse(url@) {
                Ok(u) => res matches Ok(a) && a.wf() && a.base() == u
                    && a.registry_view().page_plugins() == default_page_plugins()
                    && a.registry_view().site_models() == default_site_models()
                    && a.links_view().keys.len() == 0 && a.links_view().map == Map::<Seq<char>, LinkModel>::empty()
                    && (a.registry_view().config_view() matches Some(m)
                        && (forall|k: Seq<char>| #[trigger] m.dom().contains(k) <==> default_rule_ids().contains(k))
                        && (forall|k: Seq<char>| #[trigger] m.dom().contains(k) ==> m[k])),
                Err(m) => res matches Err(SiteAnalyzerError::UrlParseError(LinkParseError::UrlParseError(e))) && e@ == m,
            },
    {
        let url = match to_url(url) {
            Ok(u) => u,
            Err(e) => { return Err(SiteAnalyzerError::UrlParseError(e)); },
        };
        Ok(SiteAnalyzer { url, links: SiteLinks::new(), registry: PluginRegistry::default_with_config() })
    }

    /// Every link found so far, in the order in which they were found.
    pub fn get_links(&self) -> (res: Vec<PageLink>)
        requires
            self.wf(),
        ensures
            res@.map_values(|l: PageLink| l.model()) == model_entries(self.links_view()),
    {
        proof { self.links.lemma_entries(); }
        self.links.all_links()
    }

    /// The link table.
    pub fn links(&self) -> (res: &SiteLinks)
        ensures
            res.view() == self.links_view(),
            self.wf() ==> res.wf(),
    {
        &self.links
    }

    /// Records that the link `url` was found at `source`, and reports it when
    /// it is new. Fails with `UrlParseError` when the link cannot be resolved
    /// against the site's URL.
    pub fn add_link(&mut self, url: &str, source: PageLinkSource, events: &mut Vec<AnalysisProgress>) -> (res: Result<(), SiteAnalyzerError>)
        requires
            old(self).wf(),
        ensures
            final(self).wf(),
            final(self).base() == old(self).base(),
            final(self).registry_view() == old(self).registry_view(),
            match add_link_model(old(self).links_view(), url@, old(self).base(), source_view(source)) {
                Some((st, ev)) => res is Ok && final(self).links_view() == st
                    && progress_view(final(events)@) == progress_view(old(events)@) + ev,
                None => final(self).links_view() == old(self).links_view() && final(events)@ == old(events)@
                    && (res matches Err(SiteAnalyzerError::UrlParseError(LinkParseError::UrlParseError(e)))
                        && e@ == link_error_message(url@, old(self).base())),
            },
    {
        let link = match parse_link_from(url, &self.url) {
            Ok(l) => l,
            Err(e) => { return Err(SiteAnalyzerError::UrlParseError(e)); },
        };
        let key = clean_url(link.href);
        let ghost st = self.links.view();
        let ghost sv = source_view(source);
        let reported = clean_url_copy(&key);
        let is_new = self.links.add(key, link.link_type, source);
        assert(self.links.view() == add_to(st, reported@, link.link_type, sv));
        if is_new {
            let ghost before = events@;
            let p = self.links.progress(AnalysisProgressType::FoundLink, Some(reported));
            events.push(p);
            assert(progress_view(events@) =~= progress_view(before).push(p.model()));
        } else {
            assert(events@ == old(events)@);
            assert(progress_view(events@) =~= progress_view(old(events)@) + Seq::<ProgressModel>::empty());
        }
        Ok(())
    }

    /// Records `result` for the page `url` and reports it. Fails with
    /// `LinkNotFound` when no such link was found.
    pub fn record_page_result(&mut self, url: &WebUrl, result: PageResult, events: &mut Vec<AnalysisProgress>) -> (res: Result<(), SiteAnalyzerError>)
        requires
            old(self).wf(),
        ensures
            final(self).wf(),
            final(self).base() == old(self).base(),
            final(self).registry_view() == old(self).registry_view(),
            match record_model(old(self).links_view(), url@, result.model()) {
                Some((st, ev)) => res is Ok && final(self).links_view() == st
                    && progress_view(final(events)@) == progress_view(old(events)@).push(ev),
                None => final(self).links_view() == old(self).links_view() && final(events)@ == old(events)@
                    && (res matches Err(SiteAnalyzerError::LinkNotFound(k)) && k@ == url@),
            },
    {
        let ghost st = self.links.view();
        match self.links.record(url.as_str(), result) {
            Some(link) => {
                let ghost before = events@;
                assert(self.links.view().map =~= st.map.insert(url@, link.model()));
                let p = self.links.progress(AnalysisProgressType::AnalyzedPage(link), Some(url.as_string()));
                events.push(p);
                assert(progress_view(events@) =~= progress_view(before).push(p.model()));
                Ok(())
            },
            None => Err(SiteAnalyzerError::LinkNotFound(url.as_string())),
        }
    }
}

/// The table and the reports once the links `hrefs` were found, in order,
/// at `src` on the site at `base`, and whether all of them could be
/// resolved: the first that cannot stops the run.
pub open spec fn add_links_model(st: LinksModel, hrefs: Seq<Seq<char>>, base: Seq<char>, src: (LinkSourceType, Seq<char>)) -> (LinksModel, Seq<ProgressModel>, bool)
    decreases hrefs.len(),
{
    if hrefs.len() == 0 {
        (st, Seq::empty(), true)
    } else {
        let prev = add_links_model(st, hrefs.drop_last(), base, src);
        if !prev.2 {
            prev
        } else {
            match add_link_model(prev.0, hrefs.last(), base, src) {
                Some((st2, ev)) => (st2, prev.1 + ev, true),
                None => (prev.0, prev.1, false),
            }
        }
    }
}

/// Once a run of links stopped, the remaining links change nothing.
pub proof fn lemma_add_links_stop(st: LinksModel, hrefs: Seq<Seq<char>>, base: Seq<char>, src: (LinkSourceType, Seq<char>), n: int)
    requires
        0 <= n <= hrefs.len(),
        !add_links_model(st, hrefs.take(n), base, src).2,
    ensures
        add_links_model(st, hrefs, base, src) == add_links_model(st, hrefs.take(n), base, src),
    decreases hrefs.len() - n,
{
    if n < hrefs.len() {
        assert(hrefs.take(n + 1).drop_last() =~= hrefs.take(n));
        lemma_add_links_stop(st, hrefs, base, src, n + 1);
    } else {
        assert(hrefs.take(n) =~= hrefs);
    }
}

/// The URLs that the links on `page` lead to, in order; nothing when some
/// link on it cannot be resolved.
pub open spec fn page_targets(page: Page) -> Option<Seq<Seq<char>>> {
    let hrefs = hrefs_of(spec_select(page.html_view(), "a"@));
    if forall|i: int| 0 <= i < hrefs.len() ==> link_resolvable(#[trigger] hrefs[i], page.base_view()) {
        Some(hrefs.map_values(|h: Seq<char>| link_target(h, page.base_view())))
    } else {
        None
    }
}

/// Why a run of crawl steps stopped early, if it did.
pub enum StepStop {
    Finished,
    JoinFailed,
    ResolveFailed,
    ParseFailed,
    NotFound(Seq<char>),
}

/// The table and the reports once the sitemap URLs `urls` and then the
/// site's own URL were added: each sitemap URL is found at itself joined to
/// the site's URL, the site's URL at itself as the root. The first URL that
/// cannot be joined or resolved stops the run.
pub open spec fn seed_model(st: LinksModel, urls: Seq<Seq<char>>, base: Seq<char>) -> (LinksModel, Seq<ProgressModel>, StepStop) {
    let sm = sitemap_model(st, urls, base);
    match sm.2 {
        StepStop::Finished => match add_link_model(sm.0, base, base, (LinkSourceType::Root, base)) {
            Some((st2, ev)) => (st2, sm.1 + ev, StepStop::Finished),
            None => (sm.0, sm.1, StepStop::ResolveFailed),
        },
        _ => sm,
    }
}

/// The table and the reports once the sitemap URLs `urls` were added.
pub open spec fn sitemap_model(st: LinksModel, urls: Seq<Seq<char>>, base: Seq<char>) -> (LinksModel, Seq<ProgressModel>, StepStop)
    decreases urls.len(),
{
    if urls.len() == 0 {
        (st, Seq::empty(), StepStop::Finished)
    } else {
        let prev = sitemap_model(st, urls.drop_last(), base);
        match prev.2 {
            StepStop::Finished => match spec_url_join(base, urls.last()) {
                Ok(j) => match add_link_model(prev.0, urls.last(), base, (LinkSourceType::Sitemap, j)) {
                    Some((st2, ev)) => (st2, prev.1 + ev, StepStop::Finished),
                    None => (prev.0, prev.1, StepStop::ResolveFailed),
                },
                Err(_) => (prev.0, prev.1, StepStop::JoinFailed),
            },
            _ => prev,
        }
    }
}

/// Once the sitemap run stopped, the remaining URLs change nothing.
pub proof fn lemma_sitemap_stop(st: LinksModel, urls: Seq<Seq<char>>, base: Seq<char>, n: int)
    requires
        0 <= n <= urls.len(),
        !(sitemap_model(st, urls.take(n), base).2 is Finished),
    ensures
        sitemap_model(st, urls, base) == sitemap_model(st, urls.take(n), base),
    decreases urls.len() - n,
{
    if n < urls.len() {
        assert(urls.take(n + 1).drop_last() =~= urls.take(n));
        lemma_sitemap_stop(st, urls, base, n + 1);
    } else {
        assert(urls.take(n) =~= urls);
    }
}

impl SiteAnalyzer {
    /// Records the links `links` found on the page `page_url`, in order,
    /// stopping at the first that cannot be resolved.
    fn add_found_links(&mut self, links: &Vec<Link>, page_url: &WebUrl, events: &mut Vec<AnalysisProgress>) -> (res: Result<(), SiteAnalyzerError>)
        requires
            old(self).wf(),
        ensures
            final(self).wf(),
            final(self).base() == old(self).base(),
            final(self).registry_view() == old(self).registry_view(),
            ({
                let r = add_links_model(old(self).links_view(), links@.map_values(|l: Link| l.href@), old(self).base(), (LinkSourceType::Link, page_url@));
                &&& final(self).links_view() == r.0
                &&& progress_view(final(events)@) == progress_view(old(events)@) + r.1
                &&& (res is Ok <==> r.2)
                &&& (!r.2 ==> res matches Err(SiteAnalyzerError::UrlParseError(_)))
            }),
    {
        let ghost hrefs = links@.map_values(|l: Link| l.href@);
        let ghost st0 = self.links_view();
        let ghost base = self.base();
        let ghost src = (LinkSourceType::Link, page_url@);
        let ghost ev0 = progress_view(events@);
        assert(hrefs.take(0) =~= Seq::<Seq<char>>::empty());
        assert(ev0 + Seq::<ProgressModel>::empty() =~= ev0);
        for i in 0..links.len()
            invariant
                self.wf(),
                self.base() == base,
                self.registry_view() == old(self).registry_view(),
                st0 == old(self).links_view(),
                base == old(self).base(),
                ev0 == progress_view(old(events)@),
                hrefs == links@.map_values(|l: Link| l.href@),
                src == (LinkSourceType::Link, page_url@),
                add_links_model(st0, hrefs.take(i as int), base, src).2,
                self.links_view() == add_links_model(st0, hrefs.take(i as int), base, src).0,
                progress_view(events@) == ev0 + add_links_model(st0, hrefs.take(i as int), base, src).1,
        {
            let ghost prev = add_links_model(st0, hrefs.take(i as int), base, src);
            let ghost pev = progress_view(events@);
            assert(hrefs.take(i + 1).drop_last() =~= hrefs.take(i as int));
            assert(hrefs.take(i + 1).last() == links@[i as int].href@);
            let source = PageLinkSource { link_source_type: LinkSourceType::Link, url: page_url.as_string() };
            match self.add_link(links[i].href.as_str(), source, events) {
                Ok(()) => {
                    let ghost step = add_link_model(prev.0, hrefs[i as int], base, src);
                    assert(progress_view(events@) =~= ev0 + (prev.1 + step->Some_0.1));
                },
                Err(e) => {
                    proof { lemma_add_links_stop(st0, hrefs, base, src, i + 1); }
                    assert(progress_view(events@) =~= ev0 + prev.1);
                    return Err(e);
                },
            }
        }
        assert(hrefs.take(links@.len() as int) =~= hrefs);
        Ok(())
    }

    /// Analyzes the page at `url` and records what was found: `page` is the
    /// fetched page, or nothing when the fetch failed (the page is then
    /// recorded as an error, if it is a known link). The plugins' results
    /// are recorded for the page, and the links on it are added as found
    /// there.
    ///
    /// Fails with `PageError` when the plugins cannot run (no rule switches,
    /// or a rule that cannot run on the page) or a link on the page cannot
    /// be resolved; with `LinkNotFound` when `url` is not a known link; and
    /// with `UrlParseError` when a link on the page cannot be resolved
    /// against the site's URL.
    pub fn process_page(&mut self, url: &WebUrl, page: Option<Page>, events: &mut Vec<AnalysisProgress>) -> (res: Result<(), SiteAnalyzerError>)
        requires
            old(self).wf(),
            page_queries_valid(),
        ensures
            final(self).wf(),
            final(self).base() == old(self).base(),
            final(self).registry_view().page_plugins() == old(self).registry_view().page_plugins(),
            final(self).registry_view().config_view() == old(self).registry_view().config_view(),
            match page {
                None => res is Ok && final(self).registry_view().site_models() == old(self).registry_view().site_models()
                    && match record_model(old(self).links_view(), url@, PageResultModel { error: true, results: Seq::empty() }) {
                        Some((st, ev)) => final(self).links_view() == st && progress_view(final(events)@) == progress_view(old(events)@).push(ev),
                        None => final(self).links_view() == old(self).links_view() && final(events)@ == old(events)@,
                    },
                Some(p) => match old(self).registry_view().config_view() {
                    None => (res matches Err(SiteAnalyzerError::PageError(PageError::ConfigNotSet)))
                        && final(self).links_view() == old(self).links_view() && final(events)@ == old(events)@
                        && final(self).registry_view().site_models() == old(self).registry_view().site_models(),
                    Some(m) => if some_rule_fails(plugins_rules(old(self).registry_view().page_plugins()), p, m) {
                        (res matches Err(SiteAnalyzerError::PageError(PageError::ElementNotFound)))
                            && final(self).links_view() == old(self).links_view() && final(events)@ == old(events)@
                            && final(self).registry_view().site_models() == old(self).registry_view().site_models()
                    } else {
                        &&& final(self).registry_view().site_models() == old(self).registry_view().site_models().map_values(
                            |sm: SitePluginModel| hooked(sm, p.base_view(), p.html_view()))
                        &&& match record_model(old(self).links_view(), url@, PageResultModel {
                            error: false,
                            results: analysis_results(plugins_rules(old(self).registry_view().page_plugins()), p, m),
                        }) {
                            None => (res matches Err(SiteAnalyzerError::LinkNotFound(k)) && k@ == url@)
                                && final(self).links_view() == old(self).links_view() && final(events)@ == old(events)@,
                            Some((st1, ev1)) => match page_targets(p) {
                                None => (res matches Err(SiteAnalyzerError::PageError(PageError::LinkParseError(_))))
                                    && final(self).links_view() == st1
                                    && progress_view(final(events)@) == progress_view(old(events)@).push(ev1),
                                Some(ts) => {
                                    let r = add_links_model(st1, ts, old(self).base(), (LinkSourceType::Link, url@));
                                    &&& final(self).links_view() == r.0
                                    &&& progress_view(final(events)@) == progress_view(old(events)@).push(ev1) + r.1
                                    &&& (res is Ok <==> r.2)
                                    &&& (!r.2 ==> res matches Err(SiteAnalyzerError::UrlParseError(_)))
                                },
                            },
                        }
                    },
                },
            },
    {
        let page = match page {
            None => {
                let failed = PageResult { error: true, results: Vec::new() };
                assert(failed.model().results =~= Seq::<RuleResultModel>::empty());
                let _ = self.record_page_result(url, failed, events);
                return Ok(());
            },
            Some(p) => p,
        };
        let ghost named = plugins_rules(self.registry.page_plugins());
        let results = match self.registry.analyze(&page) {
            Ok(r) => r,
            Err(e) => { return Err(SiteAnalyzerError::PageError(e)); },
        };
        proof {
            let m = old(self).registry_view().config_view()->Some_0;
            lemma_records_view(results@, named, page, m);
        }
        self.record_page_result(url, PageResult { error: false, results }, events)?;
        let links = match page.extract_links() {
            Ok(l) => l,
            Err(e) => { return Err(SiteAnalyzerError::PageError(e)); },
        };
        proof {
            let hs = hrefs_of(spec_select(page.html_view(), "a"@));
            assert(links@.map_values(|l: Link| l.href@) =~= hs.map_values(|h: Seq<char>| link_target(h, page.base_view())));
        }
        self.add_found_links(&links, url, events)
    }

    /// Starts a crawl: adds the sitemap URLs `sitemap_urls`, each found at
    /// itself joined to the site's URL, then the site's URL itself as the
    /// root. Fails with `UrlJoinError` when a sitemap URL cannot be joined
    /// to the site's URL, and with `UrlParseError` when a URL cannot be
    /// resolved.
    pub fn seed_links(&mut self, sitemap_urls: &Vec<String>, events: &mut Vec<AnalysisProgress>) -> (res: Result<(), SiteAnalyzerError>)
        requires
            old(self).wf(),
        ensures
            final(self).wf(),
            final(self).base() == old(self).base(),
            final(self).registry_view() == old(self).registry_view(),
            ({
                let r = seed_model(old(self).links_view(), sitemap_urls@.map_values(|u: String| u@), old(self).base());
                &&& final(self).links_view() == r.0
                &&& progress_view(final(events)@) == progress_view(old(events)@) + r.1
                &&& match r.2 {
                    StepStop::Finished => res is Ok,
                    StepStop::JoinFailed => res matches Err(SiteAnalyzerError::UrlJoinError(_)),
                    _ => res matches Err(SiteAnalyzerError::UrlParseError(_)),
                }
            }),
    {
        let ghost urls = sitemap_urls@.map_values(|u: String| u@);
        let ghost st0 = self.links_view();
        let ghost base = self.base();
        let ghost ev0 = progress_view(events@);
        assert(urls.take(0) =~= Seq::<Seq<char>>::empty());
        assert(ev0 + Seq::<ProgressModel>::empty() =~= ev0);
        for i in 0..sitemap_urls.len()
            invariant
                self.wf(),
                self.base() == base,
                self.registry_view() == old(self).registry_view(),
                st0 == old(self).links_view(),
                base == old(self).base(),
                ev0 == progress_view(old(events)@),
                urls == sitemap_urls@.map_values(|u: String| u@),
                sitemap_model(st0, urls.take(i as int), base).2 is Finished,
                self.links_view() == sitemap_model(st0, urls.take(i as int), base).0,
                progress_view(events@) == ev0 + sitemap_model(st0, urls.take(i as int), base).1,
        {
            let ghost prev = sitemap_model(st0, urls.take(i as int), base);
            assert(urls.take(i + 1).drop_last() =~= urls.take(i as int));
            assert(urls.take(i + 1).last() == sitemap_urls@[i as int]@);
            let joined = match self.url.join(sitemap_urls[i].as_str()) {
                Ok(j) => j,
                Err(msg) => {
                    proof { lemma_sitemap_stop(st0, urls, base, i + 1); }
                    return Err(SiteAnalyzerError::UrlJoinError(msg));
                },
            };
            let source = PageLinkSource { link_source_type: LinkSourceType::Sitemap, url: joined.as_string() };
            match self.add_link(sitemap_urls[i].as_str(), source, events) {
                Ok(()) => {
                    let ghost step = add_link_model(prev.0, urls[i as int], base, (LinkSourceType::Sitemap, joined@));
                    assert(progress_view(events@) =~= ev0 + (prev.1 + step->Some_0.1));
                },
                Err(e) => {
                    proof { lemma_sitemap_stop(st0, urls, base, i + 1); }
                    assert(progress_view(events@) =~= ev0 + prev.1);
                    return Err(e);
                },
            }
        }
        assert(urls.take(sitemap_urls@.len() as int) =~= urls);
        let ghost sm = sitemap_model(st0, urls, base);
        let root = PageLinkSource { link_source_type: LinkSourceType::Root, url: self.url.as_string() };
        let site = self.url.as_string();
        match self.add_link(site.as_str(), root, events) {
            Ok(()) => {
                let ghost step = add_link_model(sm.0, base, base, (LinkSourceType::Root, base));
                assert(progress_view(events@) =~= ev0 + (sm.1 + step->Some_0.1));
                Ok(())
            },
            Err(e) => Err(e),
        }
    }

    /// The keys of the internal links that have no result yet, in order.
    pub fn pending_pages(&self) -> (res: Vec<String>)
        requires
            self.wf(),
        ensures
            res@.map_values(|s: String| s@) == keep_where(model_pairs(self.links_view()), |p: (Seq<char>, LinkModel)| is_pending(p)).map_values(|p: (Seq<char>, LinkModel)| p.0),
    {
        proof { self.links.lemma_entries(); }
        self.links.unprocessed_internal()
    }
}

/// One step of recording a site result `r` for the URL `u`: the URL is
/// added as found on the site's own page, then `r` is recorded for it.
pub open spec fn site_url_step(prev: (LinksModel, Seq<ProgressModel>, StepStop), u: Seq<char>, r: RuleResultModel, base: Seq<char>) -> (LinksModel, Seq<ProgressModel>, StepStop) {
    match add_link_model(prev.0, u, base, (LinkSourceType::Link, base)) {
        None => (prev.0, prev.1, StepStop::ResolveFailed),
        Some((s1, e1)) => match spec_url_parse(u) {
            Err(_) => (s1, prev.1 + e1, StepStop::ParseFailed),
            Ok(p) => match record_model(s1, p, PageResultModel { error: false, results: seq![r] }) {
                None => (s1, prev.1 + e1, StepStop::NotFound(p)),
                Some((s2, e2)) => (s2, prev.1 + e1.push(e2), StepStop::Finished),
            },
        },
    }
}

/// The table and the reports once the site result `r` was recorded for
/// each of the URLs `urls`, in order; the first failing step stops the run.
pub open spec fn record_urls_model(st: LinksModel, urls: Seq<Seq<char>>, r: RuleResultModel, base: Seq<char>) -> (LinksModel, Seq<ProgressModel>, StepStop)
    decreases urls.len(),
{
    if urls.len() == 0 {
        (st, Seq::empty(), StepStop::Finished)
    } else {
        let prev = record_urls_model(st, urls.drop_last(), r, base);
        match prev.2 {
            StepStop::Finished => site_url_step(prev, urls.last(), r, base),
            _ => prev,
        }
    }
}

/// The table and the reports once the site results `results` were recorded,
/// in order: a result whose context lists URLs is recorded for each of them.
pub open spec fn record_site_model(st: LinksModel, results: Seq<RuleResultModel>, base: Seq<char>) -> (LinksModel, Seq<ProgressModel>, StepStop)
    decreases results.len(),
{
    if results.len() == 0 {
        (st, Seq::empty(), StepStop::Finished)
    } else {
        let prev = record_site_model(st, results.drop_last(), base);
        match prev.2 {
            StepStop::Finished => match results.last().context {
                ContextModel::Urls(us) => {
                    let r = record_urls_model(prev.0, us, results.last(), base);
                    (r.0, prev.1 + r.1, r.2)
                },
                _ => prev,
            },
            _ => prev,
        }
    }
}

/// Once a run of URLs stopped, the remaining URLs change nothing.
pub proof fn lemma_record_urls_stop(st: LinksModel, urls: Seq<Seq<char>>, r: RuleResultModel, base: Seq<char>, n: int)
    requires
        0 <= n <= urls.len(),
        !(record_urls_model(st, urls.take(n), r, base).2 is Finished),
    ensures
        record_urls_model(st, urls, r, base) == record_urls_model(st, urls.take(n), r, base),
    decreases urls.len() - n,
{
    if n < urls.len() {
        assert(urls.take(n + 1).drop_last() =~= urls.take(n));
        lemma_record_urls_stop(st, urls, r, base, n + 1);
    } else {
        assert(urls.take(n) =~= urls);
    }
}

/// Once a run of results stopped, the remaining results change nothing.
pub proof fn lemma_record_site_stop(st: LinksModel, results: Seq<RuleResultModel>, base: Seq<char>, n: int)
    requires
        0 <= n <= results.len(),
        !(record_site_model(st, results.take(n), base).2 is Finished),
    ensures
        record_site_model(st, results, base) == record_site_model(st, results.take(n), base),
    decreases results.len() - n,
{
    if n < results.len() {
        assert(results.take(n + 1).drop_last() =~= results.take(n));
        lemma_record_site_stop(st, results, base, n + 1);
    } else {
        assert(results.take(n) =~= results);
    }
}

/// The error a stopped run ends with.
pub open spec fn stop_error(stop: StepStop, e: SiteAnalyzerError) -> bool {
    match stop {
        StepStop::Finished => false,
        StepStop::JoinFailed => e is UrlJoinError,
        StepStop::ResolveFailed => e is UrlParseError,
        StepStop::ParseFailed => e is UrlParseError,
        StepStop::NotFound(k) => e matches SiteAnalyzerError::LinkNotFound(m) && m@ == k,
    }
}

impl SiteAnalyzer {
    /// Records the site result `result` for each of the URLs `urls`.
    fn record_site_urls(&mut self, urls: &Vec<String>, result: &RuleResult, events: &mut Vec<AnalysisProgress>) -> (res: Result<(), SiteAnalyzerError>)
        requires
            old(self).wf(),
        ensures
            final(self).wf(),
            final(self).base() == old(self).base(),
            final(self).registry_view() == old(self).registry_view(),
            ({
                let r = record_urls_model(old(self).links_view(), urls@.map_values(|u: String| u@), result.model(), old(self).base());
                &&& final(self).links_view() == r.0
                &&& progress_view(final(events)@) == progress_view(old(events)@) + r.1
                &&& match res {
                    Ok(_) => r.2 is Finished,
                    Err(e) => stop_error(r.2, e),
                }
            }),
    {
        let ghost us = urls@.map_values(|u: String| u@);
        let ghost st0 = self.links_view();
        let ghost base = self.base();
        let ghost rm = result.model();
        let ghost ev0 = progress_view(events@);
        assert(us.take(0) =~= Seq::<Seq<char>>::empty());
        assert(ev0 + Seq::<ProgressModel>::empty() =~= ev0);
        for j in 0..urls.len()
            invariant
                self.wf(),
                self.base() == base,
                self.registry_view() == old(self).registry_view(),
                st0 == old(self).links_view(),
                base == old(self).base(),
                ev0 == progress_view(old(events)@),
                us == urls@.map_values(|u: String| u@),
                rm == result.model(),
                record_urls_model(st0, us.take(j as int), rm, base).2 is Finished,
                self.links_view() == record_urls_model(st0, us.take(j as int), rm, base).0,
                progress_view(events@) == ev0 + record_urls_model(st0, us.take(j as int), rm, base).1,
        {
            let ghost prev = record_urls_model(st0, us.take(j as int), rm, base);
            assert(us.take(j + 1).drop_last() =~= us.take(j as int));
            assert(us.take(j + 1).last() == urls@[j as int]@);
            let source = PageLinkSource { link_source_type: LinkSourceType::Link, url: self.url.as_string() };
            match self.add_link(urls[j].as_str(), source, events) {
                Ok(()) => {},
                Err(e) => {
                    proof { lemma_record_urls_stop(st0, us, rm, base, j + 1); }
                    assert(progress_view(events@) =~= ev0 + prev.1);
                    return Err(e);
                },
            }
            let ghost e1 = add_link_model(prev.0, us[j as int], base, (LinkSourceType::Link, base))->Some_0.1;
            assert(progress_view(events@) =~= ev0 + (prev.1 + e1));
            let parsed = match to_url(urls[j].as_str()) {
                Ok(u) => u,
                Err(e) => {
                    proof { lemma_record_urls_stop(st0, us, rm, base, j + 1); }
                    return Err(SiteAnalyzerError::UrlParseError(e));
                },
            };
            let copy = result.duplicate();
            let single = vec![copy];
            assert(results_view(single@) =~= seq![rm]);
            let ghost mid = progress_view(events@);
            match self.record_page_result(&parsed, PageResult { error: false, results: single }, events) {
                Ok(()) => {
                    let ghost e2 = record_model(add_link_model(prev.0, us[j as int], base, (LinkSourceType::Link, base))->Some_0.0, parsed@,
                        PageResultModel { error: false, results: seq![rm] })->Some_0.1;
                    assert(progress_view(events@) =~= ev0 + (prev.1 + e1.push(e2)));
                },
                Err(e) => {
                    proof { lemma_record_urls_stop(st0, us, rm, base, j + 1); }
                    return Err(e);
                },
            }
        }
        assert(us.take(urls@.len() as int) =~= us);
        Ok(())
    }

    /// Records the results of the site rules: a result whose context lists
    /// URLs is added to each of them (each URL is added as a link found on
    /// the site's own page first). Fails as adding a link or recording a
    /// page result fails (`UrlParseError`, `LinkNotFound`).
    pub fn record_site_results(&mut self, site_result: &Vec<RuleResult>, events: &mut Vec<AnalysisProgress>) -> (res: Result<(), SiteAnalyzerError>)
        requires
            old(self).wf(),
        ensures
            final(self).wf(),
            final(self).base() == old(self).base(),
            final(self).registry_view() == old(self).registry_view(),
            ({
                let r = record_site_model(old(self).links_view(), results_view(site_result@), old(self).base());
                &&& final(self).links_view() == r.0
                &&& progress_view(final(events)@) == progress_view(old(events)@) + r.1
                &&& match res {
                    Ok(_) => r.2 is Finished,
                    Err(e) => stop_error(r.2, e),
                }
            }),
    {
        let ghost rs = results_view(site_result@);
        let ghost st0 = self.links_view();
        let ghost base = self.base();
        let ghost ev0 = progress_view(events@);
        assert(rs.take(0) =~= Seq::<RuleResultModel>::empty());
        assert(ev0 + Seq::<ProgressModel>::empty() =~= ev0);
        for i in 0..site_result.len()
            invariant
                self.wf(),
                self.base() == base,
                self.registry_view() == old(self).registry_view(),
                st0 == old(self).links_view(),
                base == old(self).base(),
                ev0 == progress_view(old(events)@),
                rs == results_view(site_result@),
                record_site_model(st0, rs.take(i as int), base).2 is Finished,
                self.links_view() == record_site_model(st0, rs.take(i as int), base).0,
                progress_view(events@) == ev0 + record_site_model(st0, rs.take(i as int), base).1,
        {
            let ghost prev = record_site_model(st0, rs.take(i as int), base);
            assert(rs.take(i + 1).drop_last() =~= rs.take(i as int));
            assert(rs.take(i + 1).last() == site_result@[i as int].model());
            match &site_result[i].context {
                SiteCheckContext::Urls(urls) => {
                    let ghost before = progress_view(events@);
                    match self.record_site_urls(urls, &site_result[i], events) {
                        Ok(()) => {
                            let ghost r = record_urls_model(prev.0, strings_view(urls@), rs[i as int], base);
                            assert(progress_view(events@) =~= ev0 + (prev.1 + r.1));
                        },
                        Err(e) => {
                            proof { lemma_record_site_stop(st0, rs, base, i + 1); }
                            let ghost r = record_urls_model(prev.0, strings_view(urls@), rs[i as int], base);
                            assert(progress_view(events@) =~= ev0 + (prev.1 + r.1));
                            return Err(e);
                        },
                    }
                },
                _ => {},
            }
        }
        assert(rs.take(site_result@.len() as int) =~= rs);
        Ok(())
    }

    /// Ends a crawl: runs the site rules on the links found, records their
    /// results (see `record_site_results`), and gives every link with the
    /// site results. Fails with `PageError` when no rule switches were set,
    /// and as `record_site_results` fails.
    pub fn finish(&mut self, events: &mut Vec<AnalysisProgress>) -> (res: Result<CrawlResult, SiteAnalyzerError>)
        requires
            old(self).wf(),
        ensures
            final(self).wf(),
            final(self).base() == old(self).base(),
            final(self).registry_view() == old(self).registry_view(),
            match old(self).registry_view().config_view() {
                None => (res matches Err(SiteAnalyzerError::PageError(PageError::ConfigNotSet)))
                    && final(self).links_view() == old(self).links_view() && final(events)@ == old(events)@,
                Some(m) => {
                    let sr = site_results(old(self).registry_view().site_models(), model_pairs(old(self).links_view()), m);
                    let r = record_site_model(old(self).links_view(), sr, old(self).base());
                    &&& final(self).links_view() == r.0
                    &&& progress_view(final(events)@) == progress_view(old(events)@) + r.1
                    &&& match res {
                        Ok(c) => r.2 is Finished
                            && results_view(c.site_result@) == sr
                            && c.page_results@.map_values(|l: PageLink| l.model()) == model_entries(r.0)
                            && c.total_pages == r.0.keys.len() as u32,
                        Err(e) => stop_error(r.2, e),
                    }
                },
            },
    {
        proof { self.links.lemma_entries(); }
        let site_result = match self.registry.analyze_site(&self.links) {
            Ok(r) => r,
            Err(e) => { return Err(SiteAnalyzerError::PageError(e)); },
        };
        self.record_site_results(&site_result, events)?;
        let page_results = self.get_links();
        let total = self.links.len();
        Ok(CrawlResult { page_results, site_result, total_pages: total as u32 })
    }
}

/// `s` holds no `c`.
pub open spec fn lacks(s: Seq<char>, c: char) -> bool {
    forall|i: int| 0 <= i < s.len() ==> s[i] != c
}

/// Where no `c` occurs there is no first one, and the other way round.
proof fn lemma_first_index_none(s: Seq<char>, c: char)
    ensures
        first_index_of(s, c) is None <==> lacks(s, c),
    decreases s.len(),
{
    if s.len() > 0 {
        lemma_first_index_none(s.drop_last(), c);
        lemma_first_index_bounds(s, c);
        if lacks(s, c) {
            assert forall|i: int| 0 <= i < s.drop_last().len() implies s.drop_last()[i] != c by {
                assert(s.drop_last()[i] == s[i]);
            }
        }
        if first_index_of(s, c) is None {
            assert forall|i: int| 0 <= i < s.len() implies s[i] != c by {
                if i < s.len() - 1 { assert(s.drop_last()[i] == s[i]); }
            }
        }
    }
}

/// Cutting at `c` leaves no `c`, and keeps what held no `d`.
proof fn lemma_cut_at(s: Seq<char>, c: char, d: char)
    ensures
        lacks(cut_at(s, c), c),
        lacks(s, d) ==> lacks(cut_at(s, c), d),
        lacks(s, c) ==> cut_at(s, c) == s,
{
    lemma_first_index_none(s, c);
    lemma_first_index_bounds(s, c);
    match first_index_of(s, c) {
        Some(i) => {
            lemma_first_index_prefix(s, c, i);
            assert forall|j: int| 0 <= j < s.take(i).len() implies s.take(i)[j] != c by {
                lemma_first_index_none(s.take(i), c);
                if first_index_of(s.take(i), c) is Some {
                    let k = first_index_of(s.take(i), c)->Some_0;
                    lemma_first_index_bounds(s.take(i), c);
                    lemma_first_index_prefix(s, c, i);
                }
            }
        },
        None => {},
    }
}

/// A URL once cleaned stays as it is when cleaned again.
pub proof fn law_clean_url_idempotent(s: Seq<char>)
    ensures
        clean_url_spec(clean_url_spec(s)) == clean_url_spec(s),
{
    let a = cut_at(s, '?');
    let b = cut_at(a, '#');
    lemma_cut_at(s, '?', '#');
    lemma_cut_at(a, '#', '?');
    lemma_cut_at(b, '?', '#');
    lemma_cut_at(b, '#', '?');
}

/// Finding the same link at the same place twice changes the table only
/// once: the second time nothing changes.
pub proof fn law_add_link_idempotent(st: LinksModel, href: Seq<char>, base: Seq<char>, src: (LinkSourceType, Seq<char>))
    requires
        add_link_model(st, href, base, src) is Some,
    ensures
        add_link_model(add_link_model(st, href, base, src)->Some_0.0, href, base, src)
            == Some((add_link_model(st, href, base, src)->Some_0.0, Seq::<ProgressModel>::empty())),
{
    let key = link_key(href, base);
    let t = link_type_of(link_target(href, base), base);
    let st1 = add_to(st, key, t, src);
    let st2 = add_to(st1, key, t, src);
    assert(st1.map.dom().contains(key));
    assert(st1.map[key].found_in.contains(src)) by {
        if st.map.dom().contains(key) {
            if !st.map[key].found_in.contains(src) {
                assert(st1.map[key].found_in.last() == src);
            }
        } else {
            assert(st1.map[key].found_in[0] == src);
        }
    }
    assert(added_link(st1.map, key, t, src) == st1.map[key]);
    assert(st2.map =~= st1.map);
    assert(st2.keys == st1.keys);
}

/// Two links that lead to the same new page, found at two places, leave one
/// entry for the page: under its key, without a result, listing each place
/// once (the same place twice counts once), and only the first is reported.
pub proof fn law_same_page_twice(st: LinksModel, h1: Seq<char>, h2: Seq<char>, base: Seq<char>, s1: (LinkSourceType, Seq<char>), s2: (LinkSourceType, Seq<char>))
    requires
        add_link_model(st, h1, base, s1) is Some,
        add_link_model(add_link_model(st, h1, base, s1)->Some_0.0, h2, base, s2) is Some,
        link_key(h1, base) == link_key(h2, base),
        !st.map.dom().contains(link_key(h1, base)),
    ensures
        ({
            let k = link_key(h1, base);
            let (st1, ev1) = add_link_model(st, h1, base, s1)->Some_0;
            let (st2, ev2) = add_link_model(st1, h2, base, s2)->Some_0;
            &&& st2.keys == st.keys.push(k)
            &&& st2.map[k].url == k
            &&& st2.map[k].result is None
            &&& no_repeats(st2.map[k].found_in)
            &&& forall|x: (LinkSourceType, Seq<char>)| #[trigger] st2.map[k].found_in.contains(x) <==> x == s1 || x == s2
            &&& ev1.len() == 1 && ev1[0].kind == ProgressKindModel::FoundLink && ev1[0].url == Some(k)
            &&& ev2.len() == 0
        }),
{
    let k = link_key(h1, base);
    let st1 = add_link_model(st, h1, base, s1)->Some_0.0;
    let st2 = add_link_model(st1, h2, base, s2)->Some_0.0;
    assert(st1.map[k].found_in == seq![s1]);
    assert(st1.map.dom().contains(k));
    let f = st2.map[k].found_in;
    if s2 == s1 {
        assert(seq![s1].contains(s1)) by { assert(seq![s1][0] == s1); }
        assert(f == seq![s1]);
        assert forall|x: (LinkSourceType, Seq<char>)| #[trigger] f.contains(x) <==> x == s1 || x == s2 by {
            if f.contains(x) { let i = choose|i: int| 0 <= i < f.len() && f[i] == x; }
            if x == s1 { assert(f[0] == x); }
        }
    } else {
        assert(!seq![s1].contains(s2)) by {
            if seq![s1].contains(s2) { let i = choose|i: int| 0 <= i < 1 && seq![s1][i] == s2; }
        }
        assert(f == seq![s1, s2]);
        assert forall|x: (LinkSourceType, Seq<char>)| #[trigger] f.contains(x) <==> x == s1 || x == s2 by {
            if f.contains(x) { let i = choose|i: int| 0 <= i < f.len() && f[i] == x; }
            if x == s1 { assert(f[0] == x); }
            if x == s2 { assert(f[1] == x); }
        }
    }
}

/// Adding links never loses one: every key stays, in its place, and new
/// keys come last.
pub proof fn law_add_link_keeps_links(st: LinksModel, href: Seq<char>, base: Seq<char>, src: (LinkSourceType, Seq<char>), k: Seq<char>)
    requires
        add_link_model(st, href, base, src) is Some,
        st.map.dom().contains(k),
    ensures
        add_link_model(st, href, base, src)->Some_0.0.map.dom().contains(k),
        st.keys.is_prefix_of(add_link_model(st, href, base, src)->Some_0.0.keys),
        add_link_model(st, href, base, src)->Some_0.0.map[k].result == st.map[k].result,
{
    let key = link_key(href, base);
    let st1 = add_link_model(st, href, base, src)->Some_0.0;
    if !st.map.dom().contains(key) {
        assert(st1.keys.take(st.keys.len() as int) =~= st.keys);
    } else {
        assert(st1.keys.take(st.keys.len() as int) =~= st.keys);
    }
}

/// A page with a recorded result is no longer waiting to be analyzed.
pub proof fn law_recorded_page_not_pending(st: LinksModel, key: Seq<char>, res: PageResultModel)
    requires
        record_in(st, key, res) is Some,
    ensures
        !is_pending((key, record_in(st, key, res)->Some_0.map[key])),
        record_in(st, key, res)->Some_0.keys == st.keys,
{
}

/// Progress reports never count more analyzed pages than internal ones.
pub proof fn law_completed_within_total(st: LinksModel)
    ensures
        count_where(model_entries(st), |l: LinkModel| is_completed(l)) <= count_where(model_entries(st), |l: LinkModel| is_internal(l)),
{
    lemma_count_mono(model_entries(st), |l: LinkModel| is_completed(l), |l: LinkModel| is_internal(l));
}

/// Every key of the table is clean: no query and no fragment.
pub open spec fn keys_clean(st: LinksModel) -> bool {
    forall|i: int| 0 <= i < st.keys.len() ==> lacks(#[trigger] st.keys[i], '?') && lacks(st.keys[i], '#')
}

/// Links are stored without query and fragment: adding a link keeps every
/// key clean.
pub proof fn law_link_keys_clean(st: LinksModel, href: Seq<char>, base: Seq<char>, src: (LinkSourceType, Seq<char>))
    requires
        keys_clean(st),
        add_link_model(st, href, base, src) is Some,
    ensures
        keys_clean(add_link_model(st, href, base, src)->Some_0.0),
{
    let t = link_target(href, base);
    let a = cut_at(t, '?');
    lemma_cut_at(t, '?', '#');
    lemma_cut_at(a, '#', '?');
    let st1 = add_link_model(st, href, base, src)->Some_0.0;
    assert forall|i: int| 0 <= i < st1.keys.len() implies lacks(#[trigger] st1.keys[i], '?') && lacks(st1.keys[i], '#') by {
        if i < st.keys.len() {
            assert(st1.keys[i] == st.keys[i]);
        }
    }
}

/// The link `k` is known, internal and analyzed.
pub open spec fn analyzed_in(st: LinksModel, k: Seq<char>) -> bool {
    st.map.dom().contains(k) && is_completed(st.map[k])
}

/// Finding a link or recording a result never takes a result away.
proof fn lemma_site_step_keeps(prev: (LinksModel, Seq<ProgressModel>, StepStop), u: Seq<char>, r: RuleResultModel, base: Seq<char>, k: Seq<char>)
    requires
        analyzed_in(prev.0, k),
    ensures
        analyzed_in(site_url_step(prev, u, r, base).0, k),
{
    match add_link_model(prev.0, u, base, (LinkSourceType::Link, base)) {
        None => {},
        Some((s1, e1)) => {
            assert(analyzed_in(s1, k));
            match spec_url_parse(u) {
                Err(_) => {},
                Ok(p) => {
                    match record_in(s1, p, PageResultModel { error: false, results: seq![r] }) {
                        None => {},
                        Some(s2) => { assert(analyzed_in(s2, k)); },
                    }
                },
            }
        },
    }
}

/// Recording a site result for URLs never takes a result away.
proof fn lemma_record_urls_keeps(st: LinksModel, urls: Seq<Seq<char>>, r: RuleResultModel, base: Seq<char>, k: Seq<char>)
    requires
        analyzed_in(st, k),
    ensures
        analyzed_in(record_urls_model(st, urls, r, base).0, k),
    decreases urls.len(),
{
    if urls.len() > 0 {
        lemma_record_urls_keeps(st, urls.drop_last(), r, base, k);
        let prev = record_urls_model(st, urls.drop_last(), r, base);
        if prev.2 is Finished {
            lemma_site_step_keeps(prev, urls.last(), r, base, k);
        }
    }
}

/// Recording site results never takes a result away.
proof fn lemma_record_site_keeps(st: LinksModel, results: Seq<RuleResultModel>, base: Seq<char>, k: Seq<char>)
    requires
        analyzed_in(st, k),
    ensures
        analyzed_in(record_site_model(st, results, base).0, k),
    decreases results.len(),
{
    if results.len() > 0 {
        lemma_record_site_keeps(st, results.drop_last(), base, k);
        let prev = record_site_model(st, results.drop_last(), base);
        if prev.2 is Finished {
            if let ContextModel::Urls(us) = results.last().context {
                lemma_record_urls_keeps(prev.0, us, results.last(), base, k);
            }
        }
    }
}

/// Finding a link or recording a result keeps every key in its place.
proof fn lemma_site_step_prefix(prev: (LinksModel, Seq<ProgressModel>, StepStop), u: Seq<char>, r: RuleResultModel, base: Seq<char>)
    ensures
        prev.0.keys.is_prefix_of(site_url_step(prev, u, r, base).0.keys),
{
    assert(prev.0.keys.take(prev.0.keys.len() as int) =~= prev.0.keys);
    match add_link_model(prev.0, u, base, (LinkSourceType::Link, base)) {
        None => {},
        Some((s1, e1)) => {
            assert(s1.keys.take(prev.0.keys.len() as int) =~= prev.0.keys);
        },
    }
}

/// Recording a site result for URLs keeps every key in its place.
proof fn lemma_record_urls_prefix(st: LinksModel, urls: Seq<Seq<char>>, r: RuleResultModel, base: Seq<char>)
    ensures
        st.keys.is_prefix_of(record_urls_model(st, urls, r, base).0.keys),
    decreases urls.len(),
{
    if urls.len() > 0 {
        lemma_record_urls_prefix(st, urls.drop_last(), r, base);
        let prev = record_urls_model(st, urls.drop_last(), r, base);
        if prev.2 is Finished {
            lemma_site_step_prefix(prev, urls.last(), r, base);
            let next = site_url_step(prev, urls.last(), r, base).0.keys;
            assert(next.take(st.keys.len() as int) =~= prev.0.keys.take(st.keys.len() as int));
        }
    } else {
        assert(st.keys.take(st.keys.len() as int) =~= st.keys);
    }
}

/// Recording site results keeps every key in its place.
proof fn lemma_record_site_prefix(st: LinksModel, results: Seq<RuleResultModel>, base: Seq<char>)
    ensures
        st.keys.is_prefix_of(record_site_model(st, results, base).0.keys),
    decreases results.len(),
{
    if results.len() > 0 {
        lemma_record_site_prefix(st, results.drop_last(), base);
        let prev = record_site_model(st, results.drop_last(), base);
        if prev.2 is Finished {
            if let ContextModel::Urls(us) = results.last().context {
                lemma_record_urls_prefix(prev.0, us, results.last(), base);
                let next = record_urls_model(prev.0, us, results.last(), base).0.keys;
                assert(next.take(st.keys.len() as int) =~= prev.0.keys.take(st.keys.len() as int));
            }
        }
    } else {
        assert(st.keys.take(st.keys.len() as int) =~= st.keys);
    }
}

/// The end of a crawl: when `pending_pages` gives nothing, every internal
/// link found has a result, and `finish`, which records the site results
/// `results`, reports every link found in its place, each internal one
/// with a result.
pub proof fn law_crawl_end(sa: SiteAnalyzer, results: Seq<RuleResultModel>)
    requires
        sa.wf(),
        keep_where(model_pairs(sa.links_view()), |p: (Seq<char>, LinkModel)| is_pending(p)).len() == 0,
    ensures
        forall|i: int| 0 <= i < sa.links_view().keys.len() && is_internal(#[trigger] model_entries(sa.links_view())[i])
            ==> model_entries(sa.links_view())[i].result is Some,
        ({
            let st = sa.links_view();
            let r = record_site_model(st, results, sa.base()).0;
            &&& st.keys.is_prefix_of(r.keys)
            &&& forall|i: int| 0 <= i < st.keys.len() && is_internal(#[trigger] model_entries(st)[i])
                ==> is_completed(model_entries(r)[i])
        }),
{
    let st = sa.links_view();
    sa.links.lemma_shape();
    assert forall|i: int| 0 <= i < st.keys.len() implies st.map.dom().contains(#[trigger] st.keys[i]) by {
        assert(sa.links.keys().contains(st.keys[i]));
    }
    law_no_pending_means_all_analyzed(st);
    law_finished_crawl_all_analyzed(st, results, sa.base());
    lemma_record_site_prefix(st, results, sa.base());
    let r = record_site_model(st, results, sa.base()).0;
    assert forall|i: int| 0 <= i < st.keys.len() && is_internal(#[trigger] model_entries(st)[i])
        implies is_completed(model_entries(r)[i]) by {
        assert(r.keys[i] == st.keys[i]);
        assert(analyzed_in(r, st.keys[i]));
    }
}

/// Once no page of a crawl waits to be analyzed, every internal link found
/// has a result, and still has it after the site results are recorded when
/// the crawl ends (`finish`).
pub proof fn law_finished_crawl_all_analyzed(st: LinksModel, results: Seq<RuleResultModel>, base: Seq<char>)
    requires
        forall|i: int| 0 <= i < st.keys.len() ==> st.map.dom().contains(#[trigger] st.keys[i]),
        keep_where(model_pairs(st), |p: (Seq<char>, LinkModel)| is_pending(p)).len() == 0,
    ensures
        forall|i: int| 0 <= i < st.keys.len() && is_internal(#[trigger] model_entries(st)[i])
            ==> analyzed_in(record_site_model(st, results, base).0, st.keys[i]),
{
    law_no_pending_means_all_analyzed(st);
    assert forall|i: int| 0 <= i < st.keys.len() && is_internal(#[trigger] model_entries(st)[i])
        implies analyzed_in(record_site_model(st, results, base).0, st.keys[i]) by {
        assert(model_entries(st)[i] == st.map[st.keys[i]]);
        assert(st.map.dom().contains(st.keys[i]));
        lemma_record_site_keeps(st, results, base, st.keys[i]);
    }
}

/// Once no page waits to be analyzed, every internal link found has a result.
pub proof fn law_no_pending_means_all_analyzed(st: LinksModel)
    requires
        keep_where(model_pairs(st), |p: (Seq<char>, LinkModel)| is_pending(p)).len() == 0,
    ensures
        forall|i: int| 0 <= i < st.keys.len() && is_internal(#[trigger] model_entries(st)[i]) ==> model_entries(st)[i].result is Some,
{
    let pr = model_pairs(st);
    let pred = |p: (Seq<char>, LinkModel)| is_pending(p);
    assert forall|i: int| 0 <= i < st.keys.len() && is_internal(#[trigger] model_entries(st)[i]) implies model_entries(st)[i].result is Some by {
        if model_entries(st)[i].result is None {
            assert(pred(pr[i]));
            lemma_keep_nonempty(pr, pred, i);
        }
    }
}

/// An element that satisfies the property is kept.
proof fn lemma_keep_nonempty<T>(s: Seq<T>, p: spec_fn(T) -> bool, i: int)
    requires
        0 <= i < s.len(),
        p(s[i]),
    ensures
        keep_where(s, p).len() > 0,
    decreases s.len(),
{
    if i < s.len() - 1 {
        assert(s.drop_last()[i] == s[i]);
        lemma_keep_nonempty(s.drop_last(), p, i);
    }
}

/// A copy of a text.
fn clean_url_copy(s: &String) -> (res: String)
    ensures
        res@ == s@,
{
    s.clone()
}

/// Recording a result for a link never loses what it held: a link without a
/// result takes the new one; a link with one keeps its error flag and its
/// earlier rule results, in order, followed by the new ones. The link's URL,
/// kind and sources stay as they were.
pub proof fn law_record_keeps_earlier_results(l: LinkModel, res: PageResultModel)
    ensures
        recorded_link(l, res).url == l.url,
        recorded_link(l, res).link_type == l.link_type,
        recorded_link(l, res).found_in == l.found_in,
        l.result is None ==> recorded_link(l, res).result == Some(res),
        l.result matches Some(r) ==> (recorded_link(l, res).result matches Some(r2)
            && r2.error == r.error
            && r2.results.len() == r.results.len() + res.results.len()
            && r2.results.take(r.results.len() as int) == r.results
            && r2.results.skip(r.results.len() as int) == res.results),
{
    if let Some(r) = l.result {
        let r2 = recorded_link(l, res).result->Some_0;
        if res.results.len() > 0 {
            assert(r2.results.take(r.results.len() as int) =~= r.results);
            assert(r2.results.skip(r.results.len() as int) =~= res.results);
        } else {
            assert(r2.results.take(r.results.len() as int) =~= r.results);
            assert(r2.results.skip(r.results.len() as int) =~= res.results);
        }
    }
}

} // verus!
