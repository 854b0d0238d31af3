//! Lighthouse audits, run by the desktop application.
use vstd::prelude::*;

verus! {

/// Why a Lighthouse audit failed.
#[derive(Debug)]
pub enum LighthouseError {
    ExecutionError(String),
    ParseError(String),
    IoError(String),
}

} // verus!
