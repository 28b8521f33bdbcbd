//! The report of a run.

use vstd::prelude::*;
use crate::types::{OutputData, OutputResult};

verus! {

/// Wraps the outcomes of a run into its report: the base address and the
/// outcomes as they came, none left out and none moved.
pub fn finalize(base_url: &str, outcomes: Vec<OutputResult>) -> (report: OutputData)
    ensures
        report.base_url@ == base_url@,
        report.results == outcomes,
{
    OutputData { base_url: base_url.to_owned(), results: outcomes }
}

} // verus!
