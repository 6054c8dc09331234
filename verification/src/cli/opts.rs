//! The options of one run as the command line gives them, unchecked.

use vstd::prelude::*;

verus! {

/// The raw options of a run. Each is absent where the command line did not
/// give it.
#[derive(Debug)]
pub struct Opts {
    /// The name of the dataset.
    pub dataset: Option<String>,
    /// The block range, written `start:end`.
    pub range: Option<String>,
    /// The names of the fields to extract, in output order.
    pub fields: Option<Vec<String>>,
    /// The filter options, each written `key:value`.
    pub options: Option<Vec<String>>,
}

} // verus!
