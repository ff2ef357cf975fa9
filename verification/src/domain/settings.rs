use vstd::prelude::*;

verus! {

/// Single key/value row; `value` is a JSON string.
#[derive(Debug, Clone)]
pub struct SettingEntry {
    pub id: i64,
    pub key: String,
    pub value: String,
    pub updated_at: String,
}

/// Board slugs to poll during scheduled ingestion, grouped by ATS.
#[derive(Debug, Clone)]
pub struct BoardSlugs {
    pub greenhouse: Vec<String>,
    pub lever: Vec<String>,
    pub ashby: Vec<String>,
}

/// A canonical skill name and its aliases.
#[derive(Debug, Clone)]
pub struct SkillAliasPair {
    pub canonical: String,
    pub aliases: Vec<String>,
}

#[derive(Debug, Clone, Copy, PartialEq, Eq, Structural)]
pub enum RemotePreference {
    RemoteFirst,
    HybridOk,
    OnsiteOk,
}

#[derive(Debug, Clone, Copy, PartialEq, Eq, Structural)]
pub enum SponsorshipSensitivity {
    /// Drop explicit-no-sponsorship; boost explicit-sponsor.
    Strict,
    /// Keep everything except explicit-no-sponsorship (default).
    Balanced,
    /// Keep everything; only rank lower.
    Permissive,
}

/// Recency window expansion thresholds.
#[derive(Debug, Clone)]
pub struct RecencyThresholds {
    /// Hard upper bound in days for expansion; default 28.
    pub max_days: u32,
    /// Ordered stops.  Default: [2, 7, 14, 21, 28].
    pub stops: Vec<u32>,
}

/// Paths of the master resume inputs.
#[derive(Debug, Clone)]
pub struct ResumeSourceInputs {
    pub canonical_profile_path: Option<String>,
    pub latex_source_path: Option<String>,
    pub pdf_path: Option<String>,
}

} // verus!
