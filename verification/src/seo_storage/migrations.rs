//! Schema migrations of the store.
use vstd::prelude::*;

verus! {

/// One migration: its version, what it does, and its SQL.
pub struct MigrationCode {
    pub version: i64,
    pub description: String,
    pub schema: String,
}

} // verus!
