//! URLs, parsed and resolved by the `url` crate.
//!
//! A `WebUrl` is seen through its serialization: the `url` crate documents that
//! URLs compare like their serialization, and every operation used here is a
//! function of it.
use vstd::prelude::*;

verus! {

#[verifier::external_type_specification]
#[verifier::external_body]
pub struct ExUrl(url::Url);

/// A URL as parsed by the `url` crate, together with its serialization.
pub struct WebUrl {
    inner: url::Url,
    text: String,
}

impl View for WebUrl {
    type V = Seq<char>;

    closed spec fn view(&self) -> Seq<char> {
        self.text@
    }
}

/// What `url::Url::parse` makes of `input`: the serialization of the URL, or
/// the message of the parse error.
pub uninterp spec fn spec_url_parse(input: Seq<char>) -> Result<Seq<char>, Seq<char>>;

/// What `url::Url::join` makes of `input` against the base URL serialized as
/// `base`: the serialization of the result, or the message of the error.
pub uninterp spec fn spec_url_join(base: Seq<char>, input: Seq<char>) -> Result<Seq<char>, Seq<char>>;

/// `url::Url::host_str` of the URL serialized as `url`.
pub uninterp spec fn spec_url_host(url: Seq<char>) -> Option<Seq<char>>;

/// The position of the first `:` in `s`, if any.
pub open spec fn colon_index(s: Seq<char>) -> Option<int>
    decreases s.len(),
{
    if s.len() == 0 {
        None
    } else {
        match colon_index(s.drop_last()) {
            Some(i) => Some(i),
            None => if s.last() == ':' { Some(s.len() - 1) } else { None },
        }
    }
}

/// `url::Url::scheme` of the URL serialized as `url`: the serialization up
/// to its first `:`. A URL's serialization begins with its scheme, which
/// holds no `:`, followed by a `:`.
pub open spec fn spec_url_scheme(url: Seq<char>) -> Seq<char> {
    match colon_index(url) {
        Some(i) => url.take(i),
        None => url,
    }
}

/// `url::Url::domain` of the URL serialized as `url`.
pub uninterp spec fn spec_url_domain(url: Seq<char>) -> Option<Seq<char>>;

/// `url::Url::path` of the URL serialized as `url`.
pub uninterp spec fn spec_url_path(url: Seq<char>) -> Seq<char>;

/// Calls `url::Url::parse`. Claims only that the outcome is the one named by
/// `spec_url_parse` (the error carried as its display text).
#[verifier::external_body]
pub(crate) fn parse_url(input: &str) -> (res: Result<WebUrl, String>)
    ensures
        match res {
            Ok(u) => spec_url_parse(input@) == Ok::<Seq<char>, Seq<char>>(u@),
            Err(e) => spec_url_parse(input@) == Err::<Seq<char>, Seq<char>>(e@),
        },
{
    match url::Url::parse(input) {
        Ok(u) => Ok(WebUrl { text: u.as_str().to_string(), inner: u }),
        Err(e) => Err(e.to_string()),
    }
}

impl WebUrl {
    /// The serialization.
    pub fn as_string(&self) -> (res: String)
        ensures
            res@ == self@,
    {
        self.text.clone()
    }

    /// The serialization, borrowed.
    pub fn as_str(&self) -> (res: &str)
        ensures
            res@ == self@,
    {
        self.text.as_str()
    }

    /// Calls `Clone::clone` of `url::Url`, which copies the serialization.
    #[verifier::external_body]
    pub(crate) fn duplicate(&self) -> (res: WebUrl)
        ensures
            res@ == self@,
    {
        WebUrl { inner: self.inner.clone(), text: self.text.clone() }
    }

    /// Calls `url::Url::join`. Claims only that the outcome is the one named by
    /// `spec_url_join`.
    #[verifier::external_body]
    pub(crate) fn join(&self, input: &str) -> (res: Result<WebUrl, String>)
        ensures
            match res {
                Ok(u) => spec_url_join(self@, input@) == Ok::<Seq<char>, Seq<char>>(u@),
                Err(e) => spec_url_join(self@, input@) == Err::<Seq<char>, Seq<char>>(e@),
            },
    {
        match self.inner.join(input) {
            Ok(u) => Ok(WebUrl { text: u.as_str().to_string(), inner: u }),
            Err(e) => Err(e.to_string()),
        }
    }

    /// Calls `url::Url::host_str`. Claims only that the result is the one named
    /// by `spec_url_host`.
    #[verifier::external_body]
    pub(crate) fn host_str(&self) -> (res: Option<String>)
        ensures
            match res {
                Some(h) => spec_url_host(self@) == Some(h@),
                None => spec_url_host(self@) == None::<Seq<char>>,
            },
    {
        match self.inner.host_str() {
            Some(h) => Some(h.to_string()),
            None => None,
        }
    }

    /// Calls `url::Url::scheme`. Claims that the result is the serialization
    /// up to its first `:` (see `spec_url_scheme`).
    #[verifier::external_body]
    pub(crate) fn scheme(&self) -> (res: String)
        ensures
            res@ == spec_url_scheme(self@),
    {
        self.inner.scheme().to_string()
    }

    /// Calls `url::Url::path`. Claims only that the result is the one named by
    /// `spec_url_path`.
    #[verifier::external_body]
    pub(crate) fn path(&self) -> (res: String)
        ensures
            res@ == spec_url_path(self@),
    {
        self.inner.path().to_string()
    }

    /// Calls `url::Url::domain`. Claims only that the result is the one named
    /// by `spec_url_domain`.
    #[verifier::external_body]
    pub(crate) fn domain(&self) -> (res: Option<String>)
        ensures
            match res {
                Some(d) => spec_url_domain(self@) == Some(d@),
                None => spec_url_domain(self@) == None::<Seq<char>>,
            },
    {
        match self.inner.domain() {
            Some(d) => Some(d.to_string()),
            None => None,
        }
    }
}

} // verus!
