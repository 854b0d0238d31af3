//! The desktop application's single-page analysis: the meta tags it shows,
//! and counts of headings, images and links.
use vstd::prelude::*;
use crate::html_doc::{attr_of, element_view, elements_view, select_elements, selector_error, spec_select, spec_selector_parses, ElementView};
use crate::text::{is_white_space, is_white_space_char, owned, to_chars};
use crate::web_url::{spec_url_domain, spec_url_parse, WebUrl};
use crate::seo_plugins::plugins::{count_where, lemma_count_step};
use crate::seo_plugins::utils::config::strings_view;
use crate::seo_plugins::utils::link_parser::to_url;

verus! {

/// The meta tags shown for a page: title, description and keywords.
pub struct MetaTags {
    pub title: String,
    pub description: String,
    pub keywords: Vec<String>,
}

/// How many headings of the first three levels a page has.
pub struct Headings {
    pub h1: i32,
    pub h2: i32,
    pub h3: i32,
}

/// How many images a page has, with and without alt text.
pub struct Images {
    pub total: i32,
    pub with_alt: i32,
    pub without_alt: i32,
}

/// How many links of a page stay on its domain, and how many leave it.
pub struct Links {
    pub internal: i32,
    pub external: i32,
}

/// How long a page took, and whether it adapts to small screens.
pub struct Performance {
    pub load_time: String,
    pub mobile_responsive: bool,
}

/// Why an analysis failed.
#[derive(Debug)]
pub enum SeoError {
    FetchError(String),
    UrlParseError(String),
    AnalysisError(String),
    LighthouseError(String),
}

/// The selectors this analysis uses.
pub open spec fn desktop_selectors() -> Seq<Seq<char>> {
    seq!["title"@, "meta[name='description']"@, "meta[name='keywords']"@, "h1"@, "h2"@, "h3"@,
        "img"@, "a[href]"@, "meta[name='viewport']"@]
}

/// `scraper` accepts every selector this analysis uses.
pub open spec fn desktop_queries_valid() -> bool {
    forall|j: int| 0 <= j < desktop_selectors().len() ==> spec_selector_parses(#[trigger] desktop_selectors()[j])
}

/// Whether `scraper` accepts every selector this analysis uses.
pub fn check_desktop_queries() -> (res: bool)
    ensures
        res == desktop_queries_valid(),
{
    let sels: [&str; 9] = ["title", "meta[name='description']", "meta[name='keywords']", "h1", "h2", "h3",
        "img", "a[href]", "meta[name='viewport']"];
    let ghost views = desktop_selectors();
    assert(sels@.map_values(|s: &str| s@) =~= views);
    let mut i: usize = 0;
    while i < 9
        invariant
            0 <= i <= 9,
            views == desktop_selectors(),
            sels@.map_values(|s: &str| s@) == views,
            forall|j: int| 0 <= j < i ==> spec_selector_parses(#[trigger] views[j]),
        decreases 9 - i,
    {
        assert(sels@.map_values(|s: &str| s@)[i as int] == views[i as int]);
        if selector_error(sels[i]).is_some() {
            return false;
        }
        i = i + 1;
    }
    true
}

/// Each selector used is accepted.
proof fn lemma_desktop_queries()
    requires
        desktop_queries_valid(),
    ensures
        spec_selector_parses("title"@),
        spec_selector_parses("meta[name='description']"@),
        spec_selector_parses("meta[name='keywords']"@),
        spec_selector_parses("h1"@),
        spec_selector_parses("h2"@),
        spec_selector_parses("h3"@),
        spec_selector_parses("img"@),
        spec_selector_parses("a[href]"@),
        spec_selector_parses("meta[name='viewport']"@),
{
    let s = desktop_selectors();
    assert(spec_selector_parses(s[0]) && spec_selector_parses(s[1]) && spec_selector_parses(s[2])
        && spec_selector_parses(s[3]) && spec_selector_parses(s[4]) && spec_selector_parses(s[5])
        && spec_selector_parses(s[6]) && spec_selector_parses(s[7]) && spec_selector_parses(s[8]));
}

/// `s` without its leading white space.
pub open spec fn trim_start_ws(s: Seq<char>) -> Seq<char>
    decreases s.len(),
{
    if s.len() > 0 && is_white_space(s[0]) { trim_start_ws(s.skip(1)) } else { s }
}

/// `s` without its trailing white space.
pub open spec fn trim_end_ws(s: Seq<char>) -> Seq<char>
    decreases s.len(),
{
    if s.len() > 0 && is_white_space(s.last()) { trim_end_ws(s.drop_last()) } else { s }
}

/// `s` without leading and trailing white space.
pub open spec fn trim_ws(s: Seq<char>) -> Seq<char> {
    trim_end_ws(trim_start_ws(s))
}

/// The parts of `s` between the commas, in order (one part when there is no
/// comma).
pub open spec fn split_commas(s: Seq<char>) -> Seq<Seq<char>>
    decreases s.len(),
{
    if s.len() == 0 {
        seq![s]
    } else if s.last() == ',' {
        split_commas(s.drop_last()).push(Seq::empty())
    } else {
        let prev = split_commas(s.drop_last());
        prev.update(prev.len() - 1, prev.last().push(s.last()))
    }
}

/// There is always at least one part.
proof fn lemma_split_nonempty(s: Seq<char>)
    ensures
        split_commas(s).len() >= 1,
    decreases s.len(),
{
    if s.len() > 0 {
        lemma_split_nonempty(s.drop_last());
    }
}

/// The keywords of a `content` attribute: the parts between commas, each
/// trimmed.
pub open spec fn keywords_of(content: Seq<char>) -> Seq<Seq<char>> {
    split_commas(content).map_values(|p: Seq<char>| trim_ws(p))
}

/// `s` without leading and trailing white space.
fn trim_text(s: &str) -> (res: String)
    ensures
        res@ == trim_ws(s@),
{
    let cs = to_chars(s);
    let mut a: usize = 0;
    assert(s@.skip(0) =~= s@);
    while a < cs.len() && is_white_space_char(cs[a])
        invariant
            cs@ == s@,
            0 <= a <= cs@.len(),
            trim_start_ws(s@) == trim_start_ws(s@.skip(a as int)),
        decreases cs@.len() - a,
    {
        assert(s@.skip(a as int).skip(1) =~= s@.skip(a + 1));
        assert(s@.skip(a as int)[0] == cs@[a as int]);
        a = a + 1;
    }
    let ghost t = s@.skip(a as int);
    assert(trim_start_ws(s@) == t) by {
        if a < cs.len() {
            assert(t[0] == cs@[a as int]);
        }
    }
    let mut b: usize = cs.len();
    assert(t.take(t.len() as int) =~= t);
    while b > a && is_white_space_char(cs[b - 1])
        invariant
            cs@ == s@,
            a <= b <= cs@.len(),
            t == s@.skip(a as int),
            trim_end_ws(t) == trim_end_ws(t.take(b - a)),
        decreases b,
    {
        assert(t.take(b - a).drop_last() =~= t.take(b - a - 1));
        assert(t.take(b - a).last() == cs@[b - 1]);
        b = b - 1;
    }
    assert(trim_end_ws(t) == t.take(b - a)) by {
        if b > a {
            assert(t.take(b - a).last() == cs@[b - 1]);
        }
    }
    let r = s.substring_char(a, b);
    assert(r@ =~= t.take(b - a));
    r.to_owned()
}

/// The keywords of a `content` attribute.
fn split_keywords(content: &str) -> (res: Vec<String>)
    ensures
        strings_view(res@) == keywords_of(content@),
{
    let cs = to_chars(content);
    let mut parts: Vec<String> = Vec::new();
    let mut start: usize = 0;
    let ghost mut done: Seq<Seq<char>> = Seq::empty();
    assert(content@.take(0) =~= Seq::<char>::empty());
    for i in 0..cs.len()
        invariant
            cs@ == content@,
            0 <= start <= i,
            done.len() + 1 == split_commas(content@.take(i as int)).len(),
            done == split_commas(content@.take(i as int)).take(done.len() as int),
            split_commas(content@.take(i as int)).last() == content@.subrange(start as int, i as int),
            strings_view(parts@) == done.map_values(|p: Seq<char>| trim_ws(p)),
    {
        let ghost pre = content@.take(i as int);
        let ghost post = content@.take(i + 1);
        assert(post.drop_last() =~= pre);
        assert(post.last() == cs@[i as int]);
        proof { lemma_split_nonempty(pre); }
        if cs[i] == ',' {
            let piece = content.substring_char(start, i);
            assert(piece@ =~= content@.subrange(start as int, i as int));
            let ghost prev_parts = parts@;
            parts.push(trim_text(piece));
            proof {
                let sp = split_commas(pre);
                assert(split_commas(post) == sp.push(Seq::<char>::empty()));
                done = done.push(piece@);
                assert(done =~= split_commas(post).take(done.len() as int));
                assert(content@.subrange(i + 1, i + 1) =~= Seq::<char>::empty());
                assert(strings_view(parts@) =~= strings_view(prev_parts).push(trim_ws(piece@)));
            }
            start = i + 1;
        } else {
            proof {
                let sp = split_commas(pre);
                assert(split_commas(post) == sp.update(sp.len() - 1, sp.last().push(cs@[i as int])));
                assert(content@.subrange(start as int, i + 1) =~= content@.subrange(start as int, i as int).push(cs@[i as int]));
                assert(done =~= split_commas(post).take(done.len() as int));
            }
        }
    }
    assert(content@.take(cs@.len() as int) =~= content@);
    let last = content.substring_char(start, cs.len());
    assert(last@ =~= content@.subrange(start as int, cs@.len() as int));
    let ghost prev_parts = parts@;
    parts.push(trim_text(last));
    proof {
        let sp = split_commas(content@);
        assert(sp =~= done.push(last@));
        assert(strings_view(parts@) =~= strings_view(prev_parts).push(trim_ws(last@)));
    }
    parts
}

/// The first element's value of attribute `name`, or the empty text.
pub open spec fn first_attr_or_empty(es: Seq<ElementView>, name: Seq<char>) -> Seq<char> {
    if es.len() > 0 {
        match attr_of(es[0].0, name) {
            Some(v) => v,
            None => Seq::empty(),
        }
    } else {
        Seq::empty()
    }
}

/// The meta tags of the document `html`: the first title's inner HTML, the
/// content of the first description and keywords tags (empty when missing),
/// the keywords split at commas and trimmed.
pub open spec fn meta_tags_of(html: Seq<char>) -> (Seq<char>, Seq<char>, Seq<Seq<char>>) {
    let titles = spec_select(html, "title"@);
    let kw = spec_select(html, "meta[name='keywords']"@);
    (
        if titles.len() > 0 { titles[0].1 } else { Seq::empty() },
        first_attr_or_empty(spec_select(html, "meta[name='description']"@), "content"@),
        if kw.len() > 0 && attr_of(kw[0].0, "content"@) is Some { keywords_of(attr_of(kw[0].0, "content"@)->Some_0) } else { Seq::empty() },
    )
}

/// The value of attribute `name` of the first element selected, if any.
fn first_attr(es: &Vec<crate::html_doc::ElementData>, name: &str) -> (res: Option<String>)
    ensures
        es@.len() > 0 ==> match res {
            Some(v) => attr_of(element_view(es@[0]).0, name@) == Some(v@),
            None => attr_of(element_view(es@[0]).0, name@) is None,
        },
        es@.len() == 0 ==> res is None,
{
    if es.len() > 0 { es[0].attr(name) } else { None }
}

/// Reads the meta tags of the document `html`.
pub fn analyze_meta_tags(html: &str) -> (res: Result<MetaTags, SeoError>)
    requires
        desktop_queries_valid(),
    ensures
        res matches Ok(m) && (m.title@, m.description@, strings_view(m.keywords@)) == meta_tags_of(html@),
{
    proof { lemma_desktop_queries(); }
    let titles = select_elements(html, "title");
    let title = if titles.len() > 0 { titles[0].inner_html.clone() } else { String::new() };
    assert(titles.len() > 0 ==> elements_view(titles@)[0] == element_view(titles@[0]));
    let descs = select_elements(html, "meta[name='description']");
    assert(descs.len() > 0 ==> elements_view(descs@)[0] == element_view(descs@[0]));
    let description = match first_attr(&descs, "content") {
        Some(d) => d,
        None => String::new(),
    };
    let kws = select_elements(html, "meta[name='keywords']");
    assert(kws.len() > 0 ==> elements_view(kws@)[0] == element_view(kws@[0]));
    let keywords = match first_attr(&kws, "content") {
        Some(k) => split_keywords(k.as_str()),
        None => {
            let v: Vec<String> = Vec::new();
            assert(strings_view(v@) =~= Seq::<Seq<char>>::empty());
            v
        },
    };
    Ok(MetaTags { title, description, keywords })
}

/// How many elements `selector` selects in `html`.
fn count_elements(html: &str, selector: &str) -> (res: i32)
    requires
        spec_selector_parses(selector@),
    ensures
        res == spec_select(html@, selector@).len() as i32,
{
    let es = select_elements(html, selector);
    es.len() as i32
}

/// The headings of the first three levels in `html`, counted.
pub fn analyze_headings(html: &str) -> (res: Result<Headings, SeoError>)
    requires
        desktop_queries_valid(),
    ensures
        res matches Ok(h) && h.h1 == spec_select(html@, "h1"@).len() as i32
            && h.h2 == spec_select(html@, "h2"@).len() as i32
            && h.h3 == spec_select(html@, "h3"@).len() as i32,
{
    proof { lemma_desktop_queries(); }
    Ok(Headings { h1: count_elements(html, "h1"), h2: count_elements(html, "h2"), h3: count_elements(html, "h3") })
}

/// The element has an `alt` attribute.
pub open spec fn has_alt(e: ElementView) -> bool {
    attr_of(e.0, "alt"@) is Some
}

/// The images of `html`, counted: all, with `alt`, without.
pub fn analyze_image_stats(html: &str) -> (res: (i32, i32, i32))
    requires
        desktop_queries_valid(),
    ensures
        ({
            let imgs = spec_select(html@, "img"@);
            &&& res.0 == imgs.len() as i32
            &&& res.1 == count_where(imgs, |e: ElementView| has_alt(e)) as i32
            &&& res.2 == count_where(imgs, |e: ElementView| !has_alt(e)) as i32
        }),
{
    proof { lemma_desktop_queries(); }
    let imgs = select_elements(html, "img");
    let ghost ev = elements_view(imgs@);
    let ghost pa = |e: ElementView| has_alt(e);
    let ghost pn = |e: ElementView| !has_alt(e);
    let mut total: i32 = 0;
    let mut with_alt: usize = 0;
    let mut without_alt: usize = 0;
    for i in 0..imgs.len()
        invariant
            ev == elements_view(imgs@),
            pa == (|e: ElementView| has_alt(e)),
            pn == (|e: ElementView| !has_alt(e)),
            with_alt == count_where(ev.take(i as int), pa),
            without_alt == count_where(ev.take(i as int), pn),
            with_alt + without_alt == i,
            total == i as i32,
    {
        proof {
            lemma_count_step(ev, pa, i as int);
            lemma_count_step(ev, pn, i as int);
        }
        assert(ev[i as int] == element_view(imgs@[i as int]));
        total = (i + 1) as i32;
        if imgs[i].attr("alt").is_some() {
            with_alt = with_alt + 1;
        } else {
            without_alt = without_alt + 1;
        }
    }
    assert(ev.take(imgs@.len() as int) =~= ev);
    (imgs.len() as i32, with_alt as i32, without_alt as i32)
}

/// The images of `html`, counted.
pub fn analyze_images(html: &str) -> (res: Result<Images, SeoError>)
    requires
        desktop_queries_valid(),
    ensures
        res matches Ok(i) && ({
            let imgs = spec_select(html@, "img"@);
            &&& i.total == imgs.len() as i32
            &&& i.with_alt == count_where(imgs, |e: ElementView| has_alt(e)) as i32
            &&& i.without_alt == count_where(imgs, |e: ElementView| !has_alt(e)) as i32
        }),
{
    let (total, with_alt, without_alt) = analyze_image_stats(html);
    Ok(Images { total, with_alt, without_alt })
}

/// Whether the link `href` is internal to the site at `base`: an absolute
/// link is internal when its domain is the base's, any other link is.
pub open spec fn link_is_internal(href: Seq<char>, base: Seq<char>) -> bool {
    match spec_url_parse(href) {
        Ok(u) => spec_url_domain(u) == spec_url_domain(base),
        Err(_) => true,
    }
}

/// The `href`s of the selected links, in order.
pub open spec fn hrefs_in(es: Seq<ElementView>) -> Seq<Seq<char>>
    decreases es.len(),
{
    if es.len() == 0 {
        Seq::empty()
    } else {
        let rest = hrefs_in(es.drop_last());
        match attr_of(es.last().0, "href"@) {
            Some(h) => rest.push(h),
            None => rest,
        }
    }
}

/// The links of `html` on the site at `base`, counted: internal, external.
pub fn analyze_link_stats(html: &str, base_url: &WebUrl) -> (res: (i32, i32))
    requires
        desktop_queries_valid(),
        hrefs_in(spec_select(html@, "a[href]"@)).len() <= i32::MAX,
    ensures
        ({
            let hs = hrefs_in(spec_select(html@, "a[href]"@));
            &&& res.0 == count_where(hs, |h: Seq<char>| link_is_internal(h, base_url@))
            &&& res.1 == count_where(hs, |h: Seq<char>| !link_is_internal(h, base_url@))
        }),
{
    proof { lemma_desktop_queries(); }
    let links = select_elements(html, "a[href]");
    let ghost ev = elements_view(links@);
    let ghost pi = |h: Seq<char>| link_is_internal(h, base_url@);
    let ghost pe = |h: Seq<char>| !link_is_internal(h, base_url@);
    let base_domain = base_url.domain();
    let mut internal: i32 = 0;
    let mut external: i32 = 0;
    assert(ev.take(0) =~= Seq::<ElementView>::empty());
    for i in 0..links.len()
        invariant
            ev == elements_view(links@),
            ev == spec_select(html@, "a[href]"@),
            hrefs_in(ev).len() <= i32::MAX,
            match base_domain { Some(d) => spec_url_domain(base_url@) == Some(d@), None => spec_url_domain(base_url@) is None },
            pi == (|h: Seq<char>| link_is_internal(h, base_url@)),
            pe == (|h: Seq<char>| !link_is_internal(h, base_url@)),
            internal == count_where(hrefs_in(ev.take(i as int)), pi),
            external == count_where(hrefs_in(ev.take(i as int)), pe),
            internal + external == hrefs_in(ev.take(i as int)).len(),
            hrefs_in(ev.take(i as int)).len() <= hrefs_in(ev).len(),
    {
        assert(ev.take(i + 1).drop_last() =~= ev.take(i as int));
        assert(ev.take(i + 1).last() == ev[i as int]);
        assert(ev[i as int] == element_view(links@[i as int]));
        proof { lemma_hrefs_in_prefix(ev, i + 1); }
        if let Some(href) = links[i].attr("href") {
            let ghost hs = hrefs_in(ev.take(i as int));
            assert(hrefs_in(ev.take(i + 1)) == hs.push(href@));
            proof {
                lemma_count_push_local(hs, pi, href@);
                lemma_count_push_local(hs, pe, href@);
            }
            let inside = match to_url(href.as_str()) {
                Ok(u) => {
                    let d = u.domain();
                    match (d, &base_domain) {
                        (Some(x), Some(y)) => crate::text::str_eq(x.as_str(), y.as_str()),
                        (None, None) => true,
                        _ => false,
                    }
                },
                Err(_) => true,
            };
            assert(inside == link_is_internal(href@, base_url@));
            if inside {
                internal = internal + 1;
            } else {
                external = external + 1;
            }
        } else {
            assert(hrefs_in(ev.take(i + 1)) == hrefs_in(ev.take(i as int)));
        }
    }
    assert(ev.take(links@.len() as int) =~= ev);
    (internal, external)
}

/// Counting over a sequence extended by one element.
proof fn lemma_count_push_local(s: Seq<Seq<char>>, p: spec_fn(Seq<char>) -> bool, x: Seq<char>)
    ensures
        count_where(s.push(x), p) == count_where(s, p) + if p(x) { 1nat } else { 0nat },
{
    assert(s.push(x).drop_last() =~= s);
}

/// The `href`s of a prefix of the elements are no more than all of them.
proof fn lemma_hrefs_in_prefix(es: Seq<ElementView>, n: int)
    requires
        0 <= n <= es.len(),
    ensures
        hrefs_in(es.take(n)).len() <= hrefs_in(es).len(),
    decreases es.len() - n,
{
    if n < es.len() {
        lemma_hrefs_in_prefix(es, n + 1);
        assert(es.take(n + 1).drop_last() =~= es.take(n));
    } else {
        assert(es.take(n) =~= es);
    }
}

/// The links of `html` on the site at `base`, counted.
pub fn analyze_links(html: &str, base_url: &WebUrl) -> (res: Result<Links, SeoError>)
    requires
        desktop_queries_valid(),
        hrefs_in(spec_select(html@, "a[href]"@)).len() <= i32::MAX,
    ensures
        res matches Ok(l) && ({
            let hs = hrefs_in(spec_select(html@, "a[href]"@));
            &&& l.internal == count_where(hs, |h: Seq<char>| link_is_internal(h, base_url@))
            &&& l.external == count_where(hs, |h: Seq<char>| !link_is_internal(h, base_url@))
        }),
{
    let (internal, external) = analyze_link_stats(html, base_url);
    Ok(Links { internal, external })
}

/// Whether `html` declares a viewport.
pub fn check_mobile_responsive(html: &str) -> (res: bool)
    requires
        desktop_queries_valid(),
    ensures
        res == (spec_select(html@, "meta[name='viewport']"@).len() > 0),
{
    proof { lemma_desktop_queries(); }
    select_elements(html, "meta[name='viewport']").len() > 0
}

/// What `analyze_html_content` gives for the page `html` on the site at
/// `base`.
pub open spec fn desktop_html_analysis(res: Result<(MetaTags, Headings, Images, Links, bool), SeoError>, html: Seq<char>, base: Seq<char>) -> bool {
    res matches Ok((m, h, i, l, mobile)) && ({
        let imgs = spec_select(html, "img"@);
        let hs = hrefs_in(spec_select(html, "a[href]"@));
        &&& (m.title@, m.description@, strings_view(m.keywords@)) == meta_tags_of(html)
        &&& h.h1 == spec_select(html, "h1"@).len() as i32
        &&& h.h2 == spec_select(html, "h2"@).len() as i32
        &&& h.h3 == spec_select(html, "h3"@).len() as i32
        &&& i.total == imgs.len() as i32
        &&& i.with_alt == count_where(imgs, |e: ElementView| has_alt(e)) as i32
        &&& i.without_alt == count_where(imgs, |e: ElementView| !has_alt(e)) as i32
        &&& l.internal == count_where(hs, |h: Seq<char>| link_is_internal(h, base))
        &&& l.external == count_where(hs, |h: Seq<char>| !link_is_internal(h, base))
        &&& mobile == (spec_select(html, "meta[name='viewport']"@).len() > 0)
    })
}

/// Reads the meta tags and counts the headings, images and links of
/// `html` on the site at `base_url`, and whether it declares a viewport.
pub fn analyze_html_content(html: &str, base_url: &WebUrl) -> (res: Result<(MetaTags, Headings, Images, Links, bool), SeoError>)
    requires
        desktop_queries_valid(),
        hrefs_in(spec_select(html@, "a[href]"@)).len() <= i32::MAX,
    ensures
        desktop_html_analysis(res, html@, base_url@),
{
    let meta_tags = analyze_meta_tags(html)?;
    let headings = analyze_headings(html)?;
    let images = analyze_images(html)?;
    let links = analyze_links(html, base_url)?;
    let mobile = check_mobile_responsive(html);
    Ok((meta_tags, headings, images, links, mobile))
}

/// `analyze_html_content`, where the selectors are accepted and the page
/// has no more links than an `i32` counts; nothing otherwise.
pub fn try_analyze_html_content(html: &str, base_url: &WebUrl) -> (res: Option<Result<(MetaTags, Headings, Images, Links, bool), SeoError>>)
    ensures
        res is Some <==> desktop_queries_valid() && hrefs_in(spec_select(html@, "a[href]"@)).len() <= i32::MAX,
        res matches Some(r) ==> desktop_html_analysis(r, html@, base_url@),
{
    if !check_desktop_queries() {
        return None;
    }
    proof { lemma_desktop_queries(); }
    let links = select_elements(html, "a[href]");
    let ghost ev = elements_view(links@);
    let mut n: usize = 0;
    assert(ev.take(0) =~= Seq::<ElementView>::empty());
    for i in 0..links.len()
        invariant
            ev == elements_view(links@),
            ev == spec_select(html@, "a[href]"@),
            desktop_queries_valid(),
            n == hrefs_in(ev.take(i as int)).len(),
            n <= i,
    {
        assert(ev.take(i + 1).drop_last() =~= ev.take(i as int));
        assert(ev.take(i + 1).last() == ev[i as int]);
        assert(ev[i as int] == element_view(links@[i as int]));
        if links[i].attr("href").is_some() {
            n = n + 1;
        }
    }
    assert(ev.take(links@.len() as int) =~= ev);
    if n > 2147483647 {
        return None;
    }
    Some(analyze_html_content(html, base_url))
}

} // verus!
