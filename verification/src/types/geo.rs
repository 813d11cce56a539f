//! What the processing of geographic files reports when it fails.

use vstd::prelude::*;

verus! {

/// Why a geographic file could not be processed.
#[derive(Debug, Clone)]
pub struct GeoProcessError {
    pub error: String,
    pub details: Option<String>,
}

} // verus!
