//! The error of reading game assets out of a ROM image.

use vstd::prelude::*;

use crate::nds::NdsError;

verus! {

/// Why an asset could not be had.
#[derive(Debug, Clone, PartialEq, Eq)]
pub enum AssetsError {
    /// The asset is not where it should be.
    Missing(String),
    /// The asset is there but malformed.
    Corrupt {
        /// Which asset.
        what: String,
        /// What was wrong with it.
        source: NdsError,
    },
}

} // verus!
