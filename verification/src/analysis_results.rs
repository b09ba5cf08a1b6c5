//! Results of one inference run, in the form sent onward for display.

use vstd::prelude::*;
use std::time::Duration;

verus! {

/// Relies on `std::time::Duration::as_secs`: the whole seconds of the
/// duration. Nothing further is assumed of the value.
#[verifier::external_body]
fn duration_secs(d: &Duration) -> (r: u64)
    ensures
        r <= u64::MAX,
{
    d.as_secs()
}

/// Analysis results to be sent onward: no intermediate or raw results, only
/// the counts and a log.
#[derive(Clone, Debug, PartialEq, Eq)]
pub struct AnalysisResults {
    /// Number of satisfying networks.
    pub num_sat_networks: u64,
    /// Computation time in seconds.
    pub comp_time: u64,
    /// Any kind of string metadata to be displayed or logged.
    pub metadata_log: String,
}

impl AnalysisResults {
    /// Create new results from the count, the elapsed time, and a log.
    pub fn new(num_sat_networks: u64, comp_time: Duration, metadata_log: &str) -> (r:
        AnalysisResults)
        ensures
            r.num_sat_networks == num_sat_networks,
            r.metadata_log@ == metadata_log@,
    {
        AnalysisResults {
            num_sat_networks,
            comp_time: duration_secs(&comp_time),
            metadata_log: String::from_str(metadata_log),
        }
    }

    /// Append text to the end of the current metadata log.
    pub fn append_metadata(&mut self, new_metadata: &str)
        ensures
            final(self).metadata_log@ == old(self).metadata_log@ + new_metadata@,
            final(self).num_sat_networks == old(self).num_sat_networks,
            final(self).comp_time == old(self).comp_time,
    {
        self.metadata_log.append(new_metadata);
    }
}

} // verus!
