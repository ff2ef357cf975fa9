//! Verified core of a desktop job-search assistant: text normalization of
//! job postings, filesystem-safe naming, recency/location/sponsorship
//! ranking rules, and honest resume tailoring.
use vstd::prelude::*;

pub mod dates;
pub mod db_codes;
pub mod digest;
pub mod domain;
pub mod error;
pub mod files;
pub mod html;
pub mod ingestion;
pub mod int_text;
pub mod job_query;
pub mod pattern;
pub mod ranking;
pub mod resume;
pub mod secrets;
pub mod sorted;
pub mod text;
pub mod unicode;
pub mod urls;

verus! {
} // verus!
