//! HTML documents, parsed and queried with CSS selectors by the `scraper`
//! crate. A query hands back the matched elements as plain values.
use vstd::prelude::*;

verus! {

/// One attribute of an element: its qualified name and its value.
pub struct Attribute {
    pub prefix: Option<String>,
    pub ns: String,
    pub local: String,
    pub value: String,
}

/// An element matched by a selector: its attributes (in the order in which
/// `scraper` keeps them), its inner HTML and the text of its descendants.
pub struct ElementData {
    pub attrs: Vec<Attribute>,
    pub inner_html: String,
    pub text: String,
}

/// The plain view of an attribute: prefix, namespace, local name, value.
pub open spec fn attribute_view(a: Attribute) -> (Option<Seq<char>>, Seq<char>, Seq<char>, Seq<char>) {
    (
        match a.prefix {
            Some(p) => Some(p@),
            None => None,
        },
        a.ns@,
        a.local@,
        a.value@,
    )
}

/// The plain view of an element: attributes, inner HTML, text.
pub open spec fn element_view(e: ElementData) -> (Seq<(Option<Seq<char>>, Seq<char>, Seq<char>, Seq<char>)>, Seq<char>, Seq<char>) {
    (e.attrs@.map_values(|a: Attribute| attribute_view(a)), e.inner_html@, e.text@)
}

/// The plain views of a sequence of elements.
pub open spec fn elements_view(es: Seq<ElementData>) -> Seq<(Seq<(Option<Seq<char>>, Seq<char>, Seq<char>, Seq<char>)>, Seq<char>, Seq<char>)> {
    es.map_values(|e: ElementData| element_view(e))
}

/// The plain view of an attribute.
pub type AttrView = (Option<Seq<char>>, Seq<char>, Seq<char>, Seq<char>);

/// The plain view of an element.
pub type ElementView = (Seq<AttrView>, Seq<char>, Seq<char>);

/// The value of the plain attribute (no prefix, no namespace) named `name`:
/// the first one in order, as `scraper`'s `attr` finds it.
pub open spec fn attr_of(attrs: Seq<AttrView>, name: Seq<char>) -> Option<Seq<char>>
    decreases attrs.len(),
{
    if attrs.len() == 0 {
        None
    } else if attrs[0].0 is None && attrs[0].1.len() == 0 && attrs[0].2 == name {
        Some(attrs[0].3)
    } else {
        attr_of(attrs.drop_first(), name)
    }
}

impl ElementData {
    /// The value of the plain attribute `name`, if the element has one.
    pub fn attr(&self, name: &str) -> (res: Option<String>)
        ensures
            match res {
                Some(v) => attr_of(element_view(*self).0, name@) == Some(v@),
                None => attr_of(element_view(*self).0, name@) is None,
            },
    {
        let ghost attrs = element_view(*self).0;
        let mut i: usize = 0;
        assert(attrs.skip(0) =~= attrs);
        while i < self.attrs.len()
            invariant
                0 <= i <= self.attrs@.len(),
                attrs == element_view(*self).0,
                attrs.len() == self.attrs@.len(),
                attr_of(attrs, name@) == attr_of(attrs.skip(i as int), name@),
            decreases self.attrs@.len() - i,
        {
            let a = &self.attrs[i];
            assert(attrs.skip(i as int)[0] == attribute_view(*a));
            assert(attrs.skip(i as int).drop_first() =~= attrs.skip(i + 1));
            if a.prefix.is_none() && a.ns.as_str().is_empty() && crate::text::str_eq(a.local.as_str(), name) {
                return Some(a.value.clone());
            }
            i = i + 1;
        }
        None
    }

    /// Whether the element has the plain attribute `name`.
    pub fn has_attr(&self, name: &str) -> (res: bool)
        ensures
            res == attr_of(element_view(*self).0, name@) is Some,
    {
        self.attr(name).is_some()
    }
}

/// What `scraper::Selector::parse` says of `selector`: nothing when it
/// parses, else the message of the error.
pub uninterp spec fn spec_selector_error(selector: Seq<char>) -> Option<Seq<char>>;

/// `scraper` accepts `selector`.
pub open spec fn spec_selector_parses(selector: Seq<char>) -> bool {
    spec_selector_error(selector) is None
}

/// The elements that `scraper` selects with `selector` in the document parsed
/// from `document`, in document order.
pub uninterp spec fn spec_select(document: Seq<char>, selector: Seq<char>) -> Seq<(Seq<(Option<Seq<char>>, Seq<char>, Seq<char>, Seq<char>)>, Seq<char>, Seq<char>)>;

/// Calls `scraper::Selector::parse`. Claims only that the outcome is the one
/// named by `spec_selector_error` (the error carried as its display text).
#[verifier::external_body]
pub(crate) fn selector_error(selector: &str) -> (res: Option<String>)
    ensures
        match res {
            Some(e) => spec_selector_error(selector@) == Some(e@),
            None => spec_selector_error(selector@) is None,
        },
{
    match scraper::Selector::parse(selector) {
        Ok(_) => None,
        Err(e) => Some(e.to_string()),
    }
}

/// Whether `scraper` accepts `selector`.
pub fn selector_parses(selector: &str) -> (res: bool)
    ensures
        res == spec_selector_parses(selector@),
{
    selector_error(selector).is_none()
}

/// Calls `scraper::Html::select` on the document parsed by
/// `scraper::Html::parse_document`, and copies out each matched element.
/// Claims only that the result is the one named by `spec_select`.
#[verifier::external_body]
pub(crate) fn select_elements(document: &str, selector: &str) -> (res: Vec<ElementData>)
    requires
        spec_selector_parses(selector@),
    ensures
        elements_view(res@) == spec_select(document@, selector@),
{
    let sel = scraper::Selector::parse(selector).unwrap();
    let doc = scraper::Html::parse_document(document);
    let mut res = Vec::new();
    for e in doc.select(&sel) {
        let mut attrs = Vec::new();
        for (q, v) in e.value().attrs.iter() {
            let prefix = match &q.prefix { Some(p) => Some(p.to_string()), None => None };
            attrs.push(Attribute { prefix, ns: q.ns.to_string(), local: q.local.to_string(), value: v.to_string() });
        }
        res.push(ElementData { attrs, inner_html: e.inner_html(), text: e.text().collect() });
    }
    res
}

/// The document that `scraper` builds from `html`, serialized back to HTML.
pub uninterp spec fn spec_document_html(html: Seq<char>) -> Seq<char>;

/// Calls `scraper::Html::parse_document` and then `Html::html`. Claims only
/// that the result is the one named by `spec_document_html`.
#[verifier::external_body]
pub(crate) fn document_html(html: &str) -> (res: String)
    ensures
        res@ == spec_document_html(html@),
{
    scraper::Html::parse_document(html).html()
}

} // verus!
