//! Network requests made by plugins.
use vstd::prelude::*;

verus! {

/// Why a request failed.
#[derive(Debug)]
pub enum NetworkRequestError {
    FetchError(String),
    UrlParseError(String),
}

} // verus!
