//! Business entities.  All string enums map to snake_case vocabularies
//! (see `crate::db_codes`) on the wire and in the database.
pub mod account;
pub mod company;
pub mod ingestion_run;
pub mod job;
pub mod resume;
pub mod settings;
pub mod status_history;
