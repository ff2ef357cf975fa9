//! Folder/file naming for the per-job asset tree.
//!
//! Layout:
//!   <root>/YYYY-MM-DD/<CompanyName>/<jobId_or_role>_<slug>/
//!       jd.txt, jd_summary.txt, metadata.json, apply_link.url
//!
//! Path segments are sanitized before use so that every join stays inside
//! the root.
pub mod folder;
pub mod paths;
pub mod serve;
