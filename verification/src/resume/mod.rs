//! Resume tailoring and reuse detection.
//!
//! Honest tailoring: only select, reorder and re-emphasize existing
//! truthful content; never add skills, bullets, or metrics the profile
//! doesn't already declare.
pub mod ai_profile;
pub mod ai_rewrite;
pub mod reuse;
pub mod tailor;
