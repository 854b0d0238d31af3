//! Sitemaps: where to look for them, the URLs they list, and which of them
//! are still to be read.
use vstd::prelude::*;
use crate::text::{contains, has_substring, str_eq};
use crate::text_map::TextMap;
use crate::web_url::{spec_url_join, spec_url_parse, WebUrl};
use crate::seo_plugins::plugins::keep_where;
use super::config::strings_view;
use super::link_parser::{link_error_message, link_resolvable, link_target, parse_link_from, to_url, LinkParseError};
use super::page::{meta_of_document, page_queries_valid, Page, PageError};

verus! {

/// Why a sitemap could not be read.
#[derive(Debug)]
pub enum SitemapParserError {
    UrlParseError(LinkParseError),
    HtmlParseError(String),
    SitemapError(String),
    PageError(PageError),
    ClientError(String),
}

/// A node of an XML document as `roxmltree` gives it: whether it is an
/// element, its local name (empty for other nodes), and its text.
pub struct XmlNode {
    pub is_element: bool,
    pub local_name: String,
    pub text: Option<String>,
}

/// The view of an XML node.
pub open spec fn xml_node_view(n: XmlNode) -> (bool, Seq<char>, Option<Seq<char>>) {
    (n.is_element, n.local_name@, match n.text { Some(t) => Some(t@), None => None })
}

/// The nodes that `roxmltree` finds, in document order, when it parses
/// `content`; nothing when `content` is not well-formed XML.
pub uninterp spec fn spec_xml_nodes(content: Seq<char>) -> Option<Seq<(bool, Seq<char>, Option<Seq<char>>)>>;

/// Calls `roxmltree::Document::parse` and walks `descendants`, copying out
/// for each node `is_element`, the local name of `tag_name` and `text`.
/// Claims only that the result is the one named by `spec_xml_nodes`.
#[verifier::external_body]
fn xml_nodes(content: &str) -> (res: Option<Vec<XmlNode>>)
    ensures
        match res {
            Some(v) => spec_xml_nodes(content@) == Some(v@.map_values(|n: XmlNode| xml_node_view(n))),
            None => spec_xml_nodes(content@) is None,
        },
{
    let doc = match roxmltree::Document::parse(content) {
        Ok(d) => d,
        Err(_) => return None,
    };
    let mut nodes = Vec::new();
    for n in doc.descendants() {
        let text = n.text().map(|t| t.to_string());
        nodes.push(XmlNode { is_element: n.is_element(), local_name: n.tag_name().name().to_string(), text });
    }
    Some(nodes)
}

/// The node is a `<loc>` element with text.
pub open spec fn is_loc(n: (bool, Seq<char>, Option<Seq<char>>)) -> bool {
    n.0 && n.1 == "loc"@ && n.2 is Some
}

/// The elements of `s` without repeats, each where it first occurs.
pub open spec fn dedup(s: Seq<Seq<char>>) -> Seq<Seq<char>>
    decreases s.len(),
{
    if s.len() == 0 {
        Seq::empty()
    } else {
        let d = dedup(s.drop_last());
        if d.contains(s.last()) { d } else { d.push(s.last()) }
    }
}

/// The URLs a sitemap document lists: the texts of its `<loc>` elements,
/// each once, in document order; none when it is not well-formed XML.
pub open spec fn sitemap_locs(content: Seq<char>) -> Seq<Seq<char>> {
    match spec_xml_nodes(content) {
        Some(ns) => dedup(keep_where(ns, |n: (bool, Seq<char>, Option<Seq<char>>)| is_loc(n)).map_values(
            |n: (bool, Seq<char>, Option<Seq<char>>)| n.2->Some_0)),
        None => Seq::empty(),
    }
}

/// Appends `x` to `out` unless it is there already.
fn push_new(out: &mut Vec<String>, x: &String)
    ensures
        strings_view(final(out)@) == if strings_view(old(out)@).contains(x@) {
            strings_view(old(out)@)
        } else {
            strings_view(old(out)@).push(x@)
        },
{
    let ghost v = strings_view(out@);
    let mut i: usize = 0;
    while i < out.len()
        invariant
            0 <= i <= out@.len(),
            v == strings_view(out@),
            out@ == old(out)@,
            forall|j: int| 0 <= j < i ==> v[j] != x@,
        decreases out@.len() - i,
    {
        if str_eq(out[i].as_str(), x.as_str()) {
            assert(v[i as int] == x@);
            return;
        }
        i = i + 1;
    }
    out.push(x.clone());
    assert(strings_view(out@) =~= v.push(x@));
}

/// The URLs that the sitemap document `content` lists.
pub fn parse_sitemap_urls(content: &str) -> (res: Vec<String>)
    ensures
        strings_view(res@) == sitemap_locs(content@),
{
    let nodes = match xml_nodes(content) {
        Some(n) => n,
        None => { return Vec::new(); },
    };
    let ghost ns = nodes@.map_values(|n: XmlNode| xml_node_view(n));
    let ghost pred = |n: (bool, Seq<char>, Option<Seq<char>>)| is_loc(n);
    let ghost txt = |n: (bool, Seq<char>, Option<Seq<char>>)| n.2->Some_0;
    let mut out: Vec<String> = Vec::new();
    assert(ns.take(0) =~= Seq::<(bool, Seq<char>, Option<Seq<char>>)>::empty());
    assert(keep_where(ns.take(0), pred).map_values(txt) =~= Seq::<Seq<char>>::empty());
    for i in 0..nodes.len()
        invariant
            ns == nodes@.map_values(|n: XmlNode| xml_node_view(n)),
            pred == (|n: (bool, Seq<char>, Option<Seq<char>>)| is_loc(n)),
            txt == (|n: (bool, Seq<char>, Option<Seq<char>>)| n.2->Some_0),
            strings_view(out@) == dedup(keep_where(ns.take(i as int), pred).map_values(txt)),
    {
        let n = &nodes[i];
        assert(ns.take(i + 1).drop_last() =~= ns.take(i as int));
        assert(ns.take(i + 1).last() == xml_node_view(*n));
        let ghost before = keep_where(ns.take(i as int), pred).map_values(txt);
        if n.is_element && str_eq(n.local_name.as_str(), "loc") {
            if let Some(t) = &n.text {
                assert(pred(xml_node_view(*n)));
                assert(keep_where(ns.take(i + 1), pred).map_values(txt) =~= before.push(t@));
                assert(before.push(t@).drop_last() =~= before);
                push_new(&mut out, t);
            } else {
                assert(!pred(xml_node_view(*n)));
            }
        } else {
            assert(!pred(xml_node_view(*n)));
        }
    }
    assert(ns.take(nodes@.len() as int) =~= ns);
    out
}

/// The sitemaps known so far, in the order in which they became known, each
/// with the URLs it lists once it has been read.
pub struct SitemapsModel {
    pub keys: Seq<Seq<char>>,
    pub map: Map<Seq<char>, Option<Seq<Seq<char>>>>,
}

/// The sitemaps once `v` is stored for `k`: a known sitemap keeps its place.
pub open spec fn put(st: SitemapsModel, k: Seq<char>, v: Option<Seq<Seq<char>>>) -> SitemapsModel {
    SitemapsModel {
        keys: if st.map.dom().contains(k) { st.keys } else { st.keys.push(k) },
        map: st.map.insert(k, v),
    }
}

/// The sitemaps once each URL of `urls`, in order, is marked to be read.
pub open spec fn put_unread(st: SitemapsModel, urls: Seq<Seq<char>>) -> SitemapsModel
    decreases urls.len(),
{
    if urls.len() == 0 {
        st
    } else {
        put(put_unread(st, urls.drop_last()), urls.last(), None)
    }
}

/// The sitemaps once `path` joined to `base` is marked to be read, when the
/// join succeeds.
pub open spec fn put_fallback(st: SitemapsModel, base: Seq<char>, path: Seq<char>) -> SitemapsModel {
    match spec_url_join(base, path) {
        Ok(u) => put(st, u, None),
        Err(_) => st,
    }
}

/// The usual places of a sitemap on the site at `base`.
pub open spec fn fallback_sitemaps(st: SitemapsModel, base: Seq<char>) -> SitemapsModel {
    put_fallback(put_fallback(put_fallback(put_fallback(st, base, "/sitemap.xml"@), base,
        "/sitemap_index.xml"@), base, "/sitemap-index.xml"@), base, "/sitemap/sitemap.xml"@)
}

/// Every URL that the sitemaps read so far list, each once, sitemap after
/// sitemap in the order of `keys`.
pub open spec fn listed_urls(st: SitemapsModel) -> Seq<Seq<char>> {
    dedup(flat_lists(st.keys, st.map))
}

/// The lists of the read sitemaps among `keys`, one after the other.
pub open spec fn flat_lists(keys: Seq<Seq<char>>, map: Map<Seq<char>, Option<Seq<Seq<char>>>>) -> Seq<Seq<char>>
    decreases keys.len(),
{
    if keys.len() == 0 {
        Seq::empty()
    } else {
        flat_lists(keys.drop_last(), map) + match map[keys.last()] {
            Some(l) => l,
            None => Seq::empty(),
        }
    }
}

/// Finds the sitemaps of a site and collects the URLs they list.
pub struct SitemapParser {
    base_url: WebUrl,
    sitemap_urls: TextMap<Option<Vec<String>>>,
}

/// The view of an optional list of URLs.
pub open spec fn list_view(o: Option<Vec<String>>) -> Option<Seq<Seq<char>>> {
    match o {
        Some(v) => Some(strings_view(v@)),
        None => None,
    }
}

impl SitemapParser {
    /// The table of sitemaps is well formed.
    pub closed spec fn wf(&self) -> bool {
        self.sitemap_urls.wf()
    }

    /// The URL of the site.
    pub closed spec fn base(&self) -> Seq<char> {
        self.base_url@
    }

    /// The sitemaps known so far.
    pub closed spec fn sitemaps(&self) -> SitemapsModel {
        SitemapsModel {
            keys: self.sitemap_urls.key_seq(),
            map: self.sitemap_urls.as_map().map_values(|o: Option<Vec<String>>| list_view(o)),
        }
    }

    /// Stores `v` for `k`.
    fn store(&mut self, k: String, v: Option<Vec<String>>)
        requires
            old(self).wf(),
        ensures
            final(self).wf(),
            final(self).base() == old(self).base(),
            final(self).sitemaps() == put(old(self).sitemaps(), k@, list_view(v)),
    {
        proof { self.sitemap_urls.lemma_shape(); }
        let ghost old_st = self.sitemaps();
        let ghost kv = k@;
        let ghost lv = list_view(v);
        self.sitemap_urls.insert(k, v);
        proof { self.sitemap_urls.lemma_shape(); }
        assert(self.sitemaps().map =~= old_st.map.insert(kv, lv));
    }

    /// A parser for the site at `url`, with no sitemap known. Fails with
    /// `UrlParseError` when `url` does not parse.
    pub fn new(url: &str) -> (res: Result<Self, SitemapParserError>)
        ensures
            match spec_url_parse(url@) {
                Ok(u) => res matches Ok(p) && p.wf() && p.base() == u
                    && p.sitemaps().keys.len() == 0 && p.sitemaps().map == Map::<Seq<char>, Option<Seq<Seq<char>>>>::empty(),
                Err(m) => res matches Err(SitemapParserError::UrlParseError(LinkParseError::UrlParseError(e))) && e@ == m,
            },
    {
        let base_url = match to_url(url) {
            Ok(u) => u,
            Err(e) => { return Err(SitemapParserError::UrlParseError(e)); },
        };
        let res = SitemapParser { base_url, sitemap_urls: TextMap::new() };
        assert(res.sitemaps().map =~= Map::<Seq<char>, Option<Seq<Seq<char>>>>::empty());
        Ok(res)
    }

    /// The sitemap that the site's own page points to, if any.
    pub fn discover_sitemap_url(page: &Page) -> (res: Option<String>)
        requires
            page_queries_valid(),
        ensures
            match res {
                Some(s) => meta_of_document(page.html_view()).sitemap == Some(s@),
                None => meta_of_document(page.html_view()).sitemap is None,
            },
    {
        page.extract_meta_tags().sitemap
    }

    /// Decides where to look for sitemaps: the one the site's page points to
    /// (`discovered`), resolved against the site's URL; without one, the
    /// usual places. Fails with `UrlParseError` when the discovered sitemap
    /// cannot be resolved.
    pub fn seed_sitemaps(&mut self, discovered: Option<String>) -> (res: Result<(), SitemapParserError>)
        requires
            old(self).wf(),
        ensures
            final(self).wf(),
            final(self).base() == old(self).base(),
            match discovered {
                Some(d) => if link_resolvable(d@, old(self).base()) {
                    res is Ok && final(self).sitemaps() == put(old(self).sitemaps(), link_target(d@, old(self).base()), None)
                } else {
                    final(self).sitemaps() == old(self).sitemaps()
                        && (res matches Err(SitemapParserError::UrlParseError(LinkParseError::UrlParseError(e)))
                            && e@ == link_error_message(d@, old(self).base()))
                },
                None => res is Ok && final(self).sitemaps() == fallback_sitemaps(old(self).sitemaps(), old(self).base()),
            },
    {
        match discovered {
            Some(d) => {
                let link = match parse_link_from(d.as_str(), &self.base_url) {
                    Ok(l) => l,
                    Err(e) => { return Err(SitemapParserError::UrlParseError(e)); },
                };
                self.store(link.href, None);
                Ok(())
            },
            None => {
                let paths: [&str; 4] = ["/sitemap.xml", "/sitemap_index.xml", "/sitemap-index.xml", "/sitemap/sitemap.xml"];
                let ghost st0 = self.sitemaps();
                let ghost base = self.base();
                let mut i: usize = 0;
                while i < 4
                    invariant
                        0 <= i <= 4,
                        self.wf(),
                        self.base() == base,
                        base == old(self).base(),
                        st0 == old(self).sitemaps(),
                        paths@.map_values(|p: &str| p@) == seq!["/sitemap.xml"@, "/sitemap_index.xml"@, "/sitemap-index.xml"@, "/sitemap/sitemap.xml"@],
                        i == 0 ==> self.sitemaps() == st0,
                        i == 1 ==> self.sitemaps() == put_fallback(st0, base, "/sitemap.xml"@),
                        i == 2 ==> self.sitemaps() == put_fallback(put_fallback(st0, base, "/sitemap.xml"@), base, "/sitemap_index.xml"@),
                        i == 3 ==> self.sitemaps() == put_fallback(put_fallback(put_fallback(st0, base, "/sitemap.xml"@), base, "/sitemap_index.xml"@), base, "/sitemap-index.xml"@),
                        i == 4 ==> self.sitemaps() == fallback_sitemaps(st0, base),
                    decreases 4 - i,
                {
                    assert(paths@.map_values(|p: &str| p@)[i as int] == paths@[i as int]@);
                    if let Ok(u) = self.base_url.join(paths[i]) {
                        self.store(u.as_string(), None);
                    }
                    i = i + 1;
                }
                Ok(())
            },
        }
    }

    /// The sitemaps not read yet, in order.
    pub fn pending_sitemaps(&self) -> (res: Vec<String>)
        requires
            self.wf(),
        ensures
            strings_view(res@) == keep_where(self.sitemaps().keys, |k: Seq<char>| self.sitemaps().map[k] is None),
    {
        proof { self.sitemap_urls.lemma_shape(); }
        let ghost st = self.sitemaps();
        let ghost pred = |k: Seq<char>| st.map[k] is None;
        let n = self.sitemap_urls.len();
        let mut out: Vec<String> = Vec::new();
        assert(st.keys.take(0) =~= Seq::<Seq<char>>::empty());
        for i in 0..n
            invariant
                self.wf(),
                st == self.sitemaps(),
                n == st.keys.len(),
                pred == (|k: Seq<char>| st.map[k] is None),
                strings_view(out@) == keep_where(st.keys.take(i as int), pred),
        {
            proof { self.sitemap_urls.lemma_shape(); }
            let (k, v) = self.sitemap_urls.entry_at(i);
            assert(st.keys.take(i + 1).drop_last() =~= st.keys.take(i as int));
            assert(st.keys.take(i + 1).last() == k@);
            assert(self.sitemap_urls.as_map()[k@] == *v);
            let ghost prev = out@;
            if v.is_none() {
                out.push(k.clone());
                assert(strings_view(out@) =~= strings_view(prev).push(k@));
            }
        }
        assert(st.keys.take(n as int) =~= st.keys);
        out
    }

    /// Records what the sitemap `sitemap_url` holds (`text`): the URLs it
    /// lists; when it is a sitemap index, each of them is then marked as a
    /// sitemap to be read.
    pub fn record_sitemap(&mut self, sitemap_url: &str, text: &str)
        requires
            old(self).wf(),
        ensures
            final(self).wf(),
            final(self).base() == old(self).base(),
            final(self).sitemaps() == ({
                let listed = put(old(self).sitemaps(), sitemap_url@, Some(sitemap_locs(text@)));
                if has_substring(text@, "<sitemapindex"@) { put_unread(listed, sitemap_locs(text@)) } else { listed }
            }),
    {
        let urls = parse_sitemap_urls(text);
        let ghost locs = strings_view(urls@);
        let is_index = contains(text, "<sitemapindex");
        let mut copy: Vec<String> = Vec::new();
        for i in 0..urls.len()
            invariant
                strings_view(copy@) == strings_view(urls@.take(i as int)),
        {
            let ghost prev = copy@;
            copy.push(urls[i].clone());
            assert(urls@.take(i + 1) =~= urls@.take(i as int).push(urls@[i as int]));
            assert(strings_view(copy@) =~= strings_view(prev).push(urls@[i as int]@));
            assert(strings_view(urls@.take(i + 1)) =~= strings_view(urls@.take(i as int)).push(urls@[i as int]@));
        }
        assert(urls@.take(urls@.len() as int) =~= urls@);
        self.store(crate::text::owned(sitemap_url), Some(copy));
        if is_index {
            let ghost listed = self.sitemaps();
            assert(locs.take(0) =~= Seq::<Seq<char>>::empty());
            for i in 0..urls.len()
                invariant
                    self.wf(),
                    self.base() == old(self).base(),
                    locs == strings_view(urls@),
                    self.sitemaps() == put_unread(listed, locs.take(i as int)),
            {
                assert(locs.take(i + 1).drop_last() =~= locs.take(i as int));
                assert(locs.take(i + 1).last() == urls@[i as int]@);
                self.store(urls[i].clone(), None);
            }
            assert(locs.take(urls@.len() as int) =~= locs);
        }
    }

    /// Every URL that the sitemaps read so far list, each once.
    pub fn get_sitemap(&self) -> (res: Vec<String>)
        requires
            self.wf(),
        ensures
            strings_view(res@) == listed_urls(self.sitemaps()),
    {
        proof { self.sitemap_urls.lemma_shape(); }
        let ghost st = self.sitemaps();
        let n = self.sitemap_urls.len();
        let mut out: Vec<String> = Vec::new();
        assert(st.keys.take(0) =~= Seq::<Seq<char>>::empty());
        for i in 0..n
            invariant
                self.wf(),
                st == self.sitemaps(),
                n == st.keys.len(),
                strings_view(out@) == dedup(flat_lists(st.keys.take(i as int), st.map)),
        {
            proof { self.sitemap_urls.lemma_shape(); }
            let (k, v) = self.sitemap_urls.entry_at(i);
            assert(st.keys.take(i + 1).drop_last() =~= st.keys.take(i as int));
            assert(st.keys.take(i + 1).last() == k@);
            assert(self.sitemap_urls.as_map()[k@] == *v);
            let ghost before = flat_lists(st.keys.take(i as int), st.map);
            match v {
                Some(list) => {
                    let ghost l = strings_view(list@);
                    assert(flat_lists(st.keys.take(i + 1), st.map) == before + l);
                    assert(before + l.take(0) =~= before);
                    for j in 0..list.len()
                        invariant
                            l == strings_view(list@),
                            strings_view(out@) == dedup(before + l.take(j as int)),
                    {
                        assert(before + l.take(j + 1) =~= (before + l.take(j as int)).push(l[j as int]));
                        assert((before + l.take(j + 1)).drop_last() =~= before + l.take(j as int));
                        push_new(&mut out, &list[j]);
                    }
                    assert(l.take(list@.len() as int) =~= l);
                },
                None => {
                    assert(flat_lists(st.keys.take(i + 1), st.map) =~= before);
                },
            }
        }
        assert(st.keys.take(n as int) =~= st.keys);
        out
    }
}

/// No URL occurs twice in `s`.
pub open spec fn distinct(s: Seq<Seq<char>>) -> bool {
    forall|i: int, j: int| 0 <= i < j < s.len() ==> s[i] != s[j]
}

/// Removing repeats leaves each element once, and keeps every element.
pub proof fn lemma_dedup(s: Seq<Seq<char>>)
    ensures
        distinct(dedup(s)),
        forall|x: Seq<char>| dedup(s).contains(x) <==> s.contains(x),
    decreases s.len(),
{
    if s.len() > 0 {
        let t = s.drop_last();
        let y = s.last();
        lemma_dedup(t);
        let d = dedup(t);
        assert forall|x: Seq<char>| s.contains(x) <==> t.contains(x) || x == y by {
            if s.contains(x) {
                let i = choose|i: int| 0 <= i < s.len() && s[i] == x;
                if i < s.len() - 1 { assert(t[i] == x); }
            }
            if t.contains(x) {
                let i = choose|i: int| 0 <= i < t.len() && t[i] == x;
                assert(s[i] == x);
            }
            if x == y { assert(s[s.len() - 1] == x); }
        }
        if !d.contains(y) {
            let e = d.push(y);
            assert forall|x: Seq<char>| e.contains(x) <==> d.contains(x) || x == y by {
                if e.contains(x) {
                    let i = choose|i: int| 0 <= i < e.len() && e[i] == x;
                    if i < d.len() { assert(d[i] == x); }
                }
                if d.contains(x) {
                    let i = choose|i: int| 0 <= i < d.len() && d[i] == x;
                    assert(e[i] == x);
                }
                if x == y { assert(e[d.len() as int] == x); }
            }
            assert forall|i: int, j: int| 0 <= i < j < e.len() implies e[i] != e[j] by {
                if j == d.len() {
                    assert(e[i] == d[i]);
                    if d[i] == y { assert(d.contains(y)); }
                } else {
                    assert(e[i] == d[i] && e[j] == d[j]);
                }
            }
        }
    }
}

/// The URLs collected from the sitemaps hold no repeats.
pub proof fn law_listed_urls_distinct(st: SitemapsModel)
    ensures
        distinct(listed_urls(st)),
{
    lemma_dedup(flat_lists(st.keys, st.map));
}

/// A sitemap that has been read, and is no sitemap index, is not read
/// again.
pub proof fn law_read_sitemap_not_pending(st: SitemapsModel, url: Seq<char>, text: Seq<char>)
    requires
        !has_substring(text, "<sitemapindex"@),
    ensures
        put(st, url, Some(sitemap_locs(text))).map[url] is Some,
        !keep_where(put(st, url, Some(sitemap_locs(text))).keys,
            |k: Seq<char>| put(st, url, Some(sitemap_locs(text))).map[k] is None).contains(url),
{
    let st2 = put(st, url, Some(sitemap_locs(text)));
    let pred = |k: Seq<char>| st2.map[k] is None;
    lemma_keep_subset(st2.keys, pred);
}

/// Every element kept satisfies the property.
pub proof fn lemma_keep_subset(s: Seq<Seq<char>>, p: spec_fn(Seq<char>) -> bool)
    ensures
        forall|x: Seq<char>| keep_where(s, p).contains(x) ==> p(x),
    decreases s.len(),
{
    if s.len() > 0 {
        lemma_keep_subset(s.drop_last(), p);
        let k = keep_where(s.drop_last(), p);
        if p(s.last()) {
            assert forall|x: Seq<char>| k.push(s.last()).contains(x) implies p(x) by {
                let i = choose|i: int| 0 <= i < k.push(s.last()).len() && k.push(s.last())[i] == x;
                if i < k.len() { assert(k[i] == x); assert(k.contains(x)); }
            }
        }
    }
}

} // verus!
