use vstd::prelude::*;

verus! {

/// Per-source counters of one ingestion run.
#[derive(Debug, Clone)]
pub struct SourceOutcome {
    pub fetched: u32,
    pub filtered: u32,
    pub prepared: u32,
    pub errors: Vec<String>,
}

impl SourceOutcome {
    pub fn new() -> (r: Self)
        ensures
            r.fetched == 0 && r.filtered == 0 && r.prepared == 0 && r.errors@.len() == 0,
    {
        SourceOutcome { fetched: 0, filtered: 0, prepared: 0, errors: Vec::new() }
    }
}

/// One row of a run summary: the source name (e.g. "greenhouse") and its
/// counters.
#[derive(Debug, Clone)]
pub struct SummaryEntry {
    pub source: String,
    pub outcome: SourceOutcome,
}

#[derive(Debug, Clone)]
pub struct IngestionRun {
    pub id: i64,
    pub started_at: String,
    pub ended_at: Option<String>,
    /// Per-source outcomes, one entry per source name.
    pub source_summary: Option<Vec<SummaryEntry>>,
    pub total_fetched: u32,
    pub total_filtered: u32,
    pub total_prepared: u32,
    pub notes: Option<String>,
}

} // verus!
