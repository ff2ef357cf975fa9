//! The snake_case vocabularies under which the domain enums are stored in
//! the database (the CHECK vocabularies of the schema).  Each `*_str` gives
//! the stored word; each `parse_*` reads it back, mapping any word it does
//! not know to the enum's fallback variant.
use crate::domain::account::PortalType;
use crate::domain::job::{JobStatus, RecencyBucket, SponsorshipConfidence, WorkMode};
use crate::domain::resume::ReuseStrategy;
use crate::text::str_eq;
use vstd::prelude::*;

verus! {

/// The stored word of a `PortalType`.
pub open spec fn portal_type_str_spec(x: PortalType) -> Seq<char> {
    match x {
        PortalType::Workday => "workday"@,
        PortalType::Greenhouse => "greenhouse"@,
        PortalType::Lever => "lever"@,
        PortalType::Icims => "icims"@,
        PortalType::Smartrecruiters => "smartrecruiters"@,
        PortalType::Ashby => "ashby"@,
        PortalType::OracleTaleo => "oracle_taleo"@,
        PortalType::Successfactors => "successfactors"@,
        PortalType::Custom => "custom"@,
        PortalType::Unknown => "unknown"@,
    }
}

/// The `PortalType` a stored word stands for; unknown words give `Unknown`.
pub open spec fn parse_portal_spec(s: Seq<char>) -> PortalType {
    if s == "workday"@ {
        PortalType::Workday
    } else if s == "greenhouse"@ {
        PortalType::Greenhouse
    } else if s == "lever"@ {
        PortalType::Lever
    } else if s == "icims"@ {
        PortalType::Icims
    } else if s == "smartrecruiters"@ {
        PortalType::Smartrecruiters
    } else if s == "ashby"@ {
        PortalType::Ashby
    } else if s == "oracle_taleo"@ {
        PortalType::OracleTaleo
    } else if s == "successfactors"@ {
        PortalType::Successfactors
    } else if s == "custom"@ {
        PortalType::Custom
    } else {
        PortalType::Unknown
    }
}

pub fn portal_type_str(x: PortalType) -> (r: &'static str)
    ensures
        r@ == portal_type_str_spec(x),
{
    match x {
        PortalType::Workday => "workday",
        PortalType::Greenhouse => "greenhouse",
        PortalType::Lever => "lever",
        PortalType::Icims => "icims",
        PortalType::Smartrecruiters => "smartrecruiters",
        PortalType::Ashby => "ashby",
        PortalType::OracleTaleo => "oracle_taleo",
        PortalType::Successfactors => "successfactors",
        PortalType::Custom => "custom",
        PortalType::Unknown => "unknown",
    }
}

pub fn parse_portal(s: &str) -> (r: PortalType)
    ensures
        r == parse_portal_spec(s@),
{
    if str_eq(s, "workday") {
        PortalType::Workday
    } else if str_eq(s, "greenhouse") {
        PortalType::Greenhouse
    } else if str_eq(s, "lever") {
        PortalType::Lever
    } else if str_eq(s, "icims") {
        PortalType::Icims
    } else if str_eq(s, "smartrecruiters") {
        PortalType::Smartrecruiters
    } else if str_eq(s, "ashby") {
        PortalType::Ashby
    } else if str_eq(s, "oracle_taleo") {
        PortalType::OracleTaleo
    } else if str_eq(s, "successfactors") {
        PortalType::Successfactors
    } else if str_eq(s, "custom") {
        PortalType::Custom
    } else {
        PortalType::Unknown
    }
}

/// Reading back the stored word of any `PortalType` gives the same value.
pub proof fn lemma_portal_round_trip(x: PortalType)
    ensures
        parse_portal_spec(portal_type_str_spec(x)) == x,
{
    match x {
        PortalType::Workday => {
            reveal_strlit("workday");
            reveal_strlit("greenhouse");
            assert("workday"@.len() != "greenhouse"@.len());
            reveal_strlit("lever");
            assert("workday"@.len() != "lever"@.len());
            reveal_strlit("icims");
            assert("workday"@.len() != "icims"@.len());
            reveal_strlit("smartrecruiters");
            assert("workday"@.len() != "smartrecruiters"@.len());
            reveal_strlit("ashby");
            assert("workday"@.len() != "ashby"@.len());
            reveal_strlit("oracle_taleo");
            assert("workday"@.len() != "oracle_taleo"@.len());
            reveal_strlit("successfactors");
            assert("workday"@.len() != "successfactors"@.len());
            reveal_strlit("custom");
            assert("workday"@.len() != "custom"@.len());
            reveal_strlit("unknown");
            assert("workday"@[0] != "unknown"@[0]);
        },
        PortalType::Greenhouse => {
            reveal_strlit("greenhouse");
            reveal_strlit("workday");
            assert("greenhouse"@.len() != "workday"@.len());
            reveal_strlit("lever");
            assert("greenhouse"@.len() != "lever"@.len());
            reveal_strlit("icims");
            assert("greenhouse"@.len() != "icims"@.len());
            reveal_strlit("smartrecruiters");
            assert("greenhouse"@.len() != "smartrecruiters"@.len());
            reveal_strlit("ashby");
            assert("greenhouse"@.len() != "ashby"@.len());
            reveal_strlit("oracle_taleo");
            assert("greenhouse"@.len() != "oracle_taleo"@.len());
            reveal_strlit("successfactors");
            assert("greenhouse"@.len() != "successfactors"@.len());
            reveal_strlit("custom");
            assert("greenhouse"@.len() != "custom"@.len());
            reveal_strlit("unknown");
            assert("greenhouse"@.len() != "unknown"@.len());
        },
        PortalType::Lever => {
            reveal_strlit("lever");
            reveal_strlit("workday");
            assert("lever"@.len() != "workday"@.len());
            reveal_strlit("greenhouse");
            assert("lever"@.len() != "greenhouse"@.len());
            reveal_strlit("icims");
            assert("lever"@[0] != "icims"@[0]);
            reveal_strlit("smartrecruiters");
            assert("lever"@.len() != "smartrecruiters"@.len());
            reveal_strlit("ashby");
            assert("lever"@[0] != "ashby"@[0]);
            reveal_strlit("oracle_taleo");
            assert("lever"@.len() != "oracle_taleo"@.len());
            reveal_strlit("successfactors");
            assert("lever"@.len() != "successfactors"@.len());
            reveal_strlit("custom");
            assert("lever"@.len() != "custom"@.len());
            reveal_strlit("unknown");
            assert("lever"@.len() != "unknown"@.len());
        },
        PortalType::Icims => {
            reveal_strlit("icims");
            reveal_strlit("workday");
            assert("icims"@.len() != "workday"@.len());
            reveal_strlit("greenhouse");
            assert("icims"@.len() != "greenhouse"@.len());
            reveal_strlit("lever");
            assert("icims"@[0] != "lever"@[0]);
            reveal_strlit("smartrecruiters");
            assert("icims"@.len() != "smartrecruiters"@.len());
            reveal_strlit("ashby");
            assert("icims"@[0] != "ashby"@[0]);
            reveal_strlit("oracle_taleo");
            assert("icims"@.len() != "oracle_taleo"@.len());
            reveal_strlit("successfactors");
            assert("icims"@.len() != "successfactors"@.len());
            reveal_strlit("custom");
            assert("icims"@.len() != "custom"@.len());
            reveal_strlit("unknown");
            assert("icims"@.len() != "unknown"@.len());
        },
        PortalType::Smartrecruiters => {
            reveal_strlit("smartrecruiters");
            reveal_strlit("workday");
            assert("smartrecruiters"@.len() != "workday"@.len());
            reveal_strlit("greenhouse");
            assert("smartrecruiters"@.len() != "greenhouse"@.len());
            reveal_strlit("lever");
            assert("smartrecruiters"@.len() != "lever"@.len());
            reveal_strlit("icims");
            assert("smartrecruiters"@.len() != "icims"@.len());
            reveal_strlit("ashby");
            assert("smartrecruiters"@.len() != "ashby"@.len());
            reveal_strlit("oracle_taleo");
            assert("smartrecruiters"@.len() != "oracle_taleo"@.len());
            reveal_strlit("successfactors");
            assert("smartrecruiters"@.len() != "successfactors"@.len());
            reveal_strlit("custom");
            assert("smartrecruiters"@.len() != "custom"@.len());
            reveal_strlit("unknown");
            assert("smartrecruiters"@.len() != "unknown"@.len());
        },
        PortalType::Ashby => {
            reveal_strlit("ashby");
            reveal_strlit("workday");
            assert("ashby"@.len() != "workday"@.len());
            reveal_strlit("greenhouse");
            assert("ashby"@.len() != "greenhouse"@.len());
            reveal_strlit("lever");
            assert("ashby"@[0] != "lever"@[0]);
            reveal_strlit("icims");
            assert("ashby"@[0] != "icims"@[0]);
            reveal_strlit("smartrecruiters");
            assert("ashby"@.len() != "smartrecruiters"@.len());
            reveal_strlit("oracle_taleo");
            assert("ashby"@.len() != "oracle_taleo"@.len());
            reveal_strlit("successfactors");
            assert("ashby"@.len() != "successfactors"@.len());
            reveal_strlit("custom");
            assert("ashby"@.len() != "custom"@.len());
            reveal_strlit("unknown");
            assert("ashby"@.len() != "unknown"@.len());
        },
        PortalType::OracleTaleo => {
            reveal_strlit("oracle_taleo");
            reveal_strlit("workday");
            assert("oracle_taleo"@.len() != "workday"@.len());
            reveal_strlit("greenhouse");
            assert("oracle_taleo"@.len() != "greenhouse"@.len());
            reveal_strlit("lever");
            assert("oracle_taleo"@.len() != "lever"@.len());
            reveal_strlit("icims");
            assert("oracle_taleo"@.len() != "icims"@.len());
            reveal_strlit("smartrecruiters");
            assert("oracle_taleo"@.len() != "smartrecruiters"@.len());
            reveal_strlit("ashby");
            assert("oracle_taleo"@.len() != "ashby"@.len());
            reveal_strlit("successfactors");
            assert("oracle_taleo"@.len() != "successfactors"@.len());
            reveal_strlit("custom");
            assert("oracle_taleo"@.len() != "custom"@.len());
            reveal_strlit("unknown");
            assert("oracle_taleo"@.len() != "unknown"@.len());
        },
        PortalType::Successfactors => {
            reveal_strlit("successfactors");
            reveal_strlit("workday");
            assert("successfactors"@.len() != "workday"@.len());
            reveal_strlit("greenhouse");
            assert("successfactors"@.len() != "greenhouse"@.len());
            reveal_strlit("lever");
            assert("successfactors"@.len() != "lever"@.len());
            reveal_strlit("icims");
            assert("successfactors"@.len() != "icims"@.len());
            reveal_strlit("smartrecruiters");
            assert("successfactors"@.len() != "smartrecruiters"@.len());
            reveal_strlit("ashby");
            assert("successfactors"@.len() != "ashby"@.len());
            reveal_strlit("oracle_taleo");
            assert("successfactors"@.len() != "oracle_taleo"@.len());
            reveal_strlit("custom");
            assert("successfactors"@.len() != "custom"@.len());
            reveal_strlit("unknown");
            assert("successfactors"@.len() != "unknown"@.len());
        },
        PortalType::Custom => {
            reveal_strlit("custom");
            reveal_strlit("workday");
            assert("custom"@.len() != "workday"@.len());
            reveal_strlit("greenhouse");
            assert("custom"@.len() != "greenhouse"@.len());
            reveal_strlit("lever");
            assert("custom"@.len() != "lever"@.len());
            reveal_strlit("icims");
            assert("custom"@.len() != "icims"@.len());
            reveal_strlit("smartrecruiters");
            assert("custom"@.len() != "smartrecruiters"@.len());
            reveal_strlit("ashby");
            assert("custom"@.len() != "ashby"@.len());
            reveal_strlit("oracle_taleo");
            assert("custom"@.len() != "oracle_taleo"@.len());
            reveal_strlit("successfactors");
            assert("custom"@.len() != "successfactors"@.len());
            reveal_strlit("unknown");
            assert("custom"@.len() != "unknown"@.len());
        },
        PortalType::Unknown => {
            reveal_strlit("unknown");
            reveal_strlit("workday");
            assert("unknown"@[0] != "workday"@[0]);
            reveal_strlit("greenhouse");
            assert("unknown"@.len() != "greenhouse"@.len());
            reveal_strlit("lever");
            assert("unknown"@.len() != "lever"@.len());
            reveal_strlit("icims");
            assert("unknown"@.len() != "icims"@.len());
            reveal_strlit("smartrecruiters");
            assert("unknown"@.len() != "smartrecruiters"@.len());
            reveal_strlit("ashby");
            assert("unknown"@.len() != "ashby"@.len());
            reveal_strlit("oracle_taleo");
            assert("unknown"@.len() != "oracle_taleo"@.len());
            reveal_strlit("successfactors");
            assert("unknown"@.len() != "successfactors"@.len());
            reveal_strlit("custom");
            assert("unknown"@.len() != "custom"@.len());
        },
    }
}

/// The stored word of a `WorkMode`.
pub open spec fn workmode_str_spec(x: WorkMode) -> Seq<char> {
    match x {
        WorkMode::Remote => "remote"@,
        WorkMode::Hybrid => "hybrid"@,
        WorkMode::Onsite => "onsite"@,
        WorkMode::Unknown => "unknown"@,
    }
}

/// The `WorkMode` a stored word stands for; unknown words give `Unknown`.
pub open spec fn parse_workmode_spec(s: Seq<char>) -> WorkMode {
    if s == "remote"@ {
        WorkMode::Remote
    } else if s == "hybrid"@ {
        WorkMode::Hybrid
    } else if s == "onsite"@ {
        WorkMode::Onsite
    } else {
        WorkMode::Unknown
    }
}

pub fn workmode_str(x: WorkMode) -> (r: &'static str)
    ensures
        r@ == workmode_str_spec(x),
{
    match x {
        WorkMode::Remote => "remote",
        WorkMode::Hybrid => "hybrid",
        WorkMode::Onsite => "onsite",
        WorkMode::Unknown => "unknown",
    }
}

pub fn parse_workmode(s: &str) -> (r: WorkMode)
    ensures
        r == parse_workmode_spec(s@),
{
    if str_eq(s, "remote") {
        WorkMode::Remote
    } else if str_eq(s, "hybrid") {
        WorkMode::Hybrid
    } else if str_eq(s, "onsite") {
        WorkMode::Onsite
    } else {
        WorkMode::Unknown
    }
}

/// Reading back the stored word of any `WorkMode` gives the same value.
pub proof fn lemma_workmode_round_trip(x: WorkMode)
    ensures
        parse_workmode_spec(workmode_str_spec(x)) == x,
{
    match x {
        WorkMode::Remote => {
            reveal_strlit("remote");
            reveal_strlit("hybrid");
            assert("remote"@[0] != "hybrid"@[0]);
            reveal_strlit("onsite");
            assert("remote"@[0] != "onsite"@[0]);
            reveal_strlit("unknown");
            assert("remote"@.len() != "unknown"@.len());
        },
        WorkMode::Hybrid => {
            reveal_strlit("hybrid");
            reveal_strlit("remote");
            assert("hybrid"@[0] != "remote"@[0]);
            reveal_strlit("onsite");
            assert("hybrid"@[0] != "onsite"@[0]);
            reveal_strlit("unknown");
            assert("hybrid"@.len() != "unknown"@.len());
        },
        WorkMode::Onsite => {
            reveal_strlit("onsite");
            reveal_strlit("remote");
            assert("onsite"@[0] != "remote"@[0]);
            reveal_strlit("hybrid");
            assert("onsite"@[0] != "hybrid"@[0]);
            reveal_strlit("unknown");
            assert("onsite"@.len() != "unknown"@.len());
        },
        WorkMode::Unknown => {
            reveal_strlit("unknown");
            reveal_strlit("remote");
            assert("unknown"@.len() != "remote"@.len());
            reveal_strlit("hybrid");
            assert("unknown"@.len() != "hybrid"@.len());
            reveal_strlit("onsite");
            assert("unknown"@.len() != "onsite"@.len());
        },
    }
}

/// The stored word of a `SponsorshipConfidence`.
pub open spec fn sponsorship_str_spec(x: SponsorshipConfidence) -> Seq<char> {
    match x {
        SponsorshipConfidence::ExplicitSponsor => "explicit_sponsor"@,
        SponsorshipConfidence::SponsorLikely => "sponsor_likely"@,
        SponsorshipConfidence::SponsorUnclear => "sponsor_unclear"@,
        SponsorshipConfidence::SponsorUnlikely => "sponsor_unlikely"@,
        SponsorshipConfidence::ExplicitNoSponsorship => "explicit_no_sponsorship"@,
    }
}

/// The `SponsorshipConfidence` a stored word stands for; unknown words give `SponsorUnclear`.
pub open spec fn parse_sponsorship_spec(s: Seq<char>) -> SponsorshipConfidence {
    if s == "explicit_sponsor"@ {
        SponsorshipConfidence::ExplicitSponsor
    } else if s == "sponsor_likely"@ {
        SponsorshipConfidence::SponsorLikely
    } else if s == "sponsor_unlikely"@ {
        SponsorshipConfidence::SponsorUnlikely
    } else if s == "explicit_no_sponsorship"@ {
        SponsorshipConfidence::ExplicitNoSponsorship
    } else {
        SponsorshipConfidence::SponsorUnclear
    }
}

pub fn sponsorship_str(x: SponsorshipConfidence) -> (r: &'static str)
    ensures
        r@ == sponsorship_str_spec(x),
{
    match x {
        SponsorshipConfidence::ExplicitSponsor => "explicit_sponsor",
        SponsorshipConfidence::SponsorLikely => "sponsor_likely",
        SponsorshipConfidence::SponsorUnclear => "sponsor_unclear",
        SponsorshipConfidence::SponsorUnlikely => "sponsor_unlikely",
        SponsorshipConfidence::ExplicitNoSponsorship => "explicit_no_sponsorship",
    }
}

pub fn parse_sponsorship(s: &str) -> (r: SponsorshipConfidence)
    ensures
        r == parse_sponsorship_spec(s@),
{
    if str_eq(s, "explicit_sponsor") {
        SponsorshipConfidence::ExplicitSponsor
    } else if str_eq(s, "sponsor_likely") {
        SponsorshipConfidence::SponsorLikely
    } else if str_eq(s, "sponsor_unlikely") {
        SponsorshipConfidence::SponsorUnlikely
    } else if str_eq(s, "explicit_no_sponsorship") {
        SponsorshipConfidence::ExplicitNoSponsorship
    } else {
        SponsorshipConfidence::SponsorUnclear
    }
}

/// Reading back the stored word of any `SponsorshipConfidence` gives the same value.
pub proof fn lemma_sponsorship_round_trip(x: SponsorshipConfidence)
    ensures
        parse_sponsorship_spec(sponsorship_str_spec(x)) == x,
{
    match x {
        SponsorshipConfidence::ExplicitSponsor => {
            reveal_strlit("explicit_sponsor");
            reveal_strlit("sponsor_likely");
            assert("explicit_sponsor"@.len() != "sponsor_likely"@.len());
            reveal_strlit("sponsor_unclear");
            assert("explicit_sponsor"@.len() != "sponsor_unclear"@.len());
            reveal_strlit("sponsor_unlikely");
            assert("explicit_sponsor"@[0] != "sponsor_unlikely"@[0]);
            reveal_strlit("explicit_no_sponsorship");
            assert("explicit_sponsor"@.len() != "explicit_no_sponsorship"@.len());
        },
        SponsorshipConfidence::SponsorLikely => {
            reveal_strlit("sponsor_likely");
            reveal_strlit("explicit_sponsor");
            assert("sponsor_likely"@.len() != "explicit_sponsor"@.len());
            reveal_strlit("sponsor_unclear");
            assert("sponsor_likely"@.len() != "sponsor_unclear"@.len());
            reveal_strlit("sponsor_unlikely");
            assert("sponsor_likely"@.len() != "sponsor_unlikely"@.len());
            reveal_strlit("explicit_no_sponsorship");
            assert("sponsor_likely"@.len() != "explicit_no_sponsorship"@.len());
        },
        SponsorshipConfidence::SponsorUnclear => {
            reveal_strlit("sponsor_unclear");
            reveal_strlit("explicit_sponsor");
            assert("sponsor_unclear"@.len() != "explicit_sponsor"@.len());
            reveal_strlit("sponsor_likely");
            assert("sponsor_unclear"@.len() != "sponsor_likely"@.len());
            reveal_strlit("sponsor_unlikely");
            assert("sponsor_unclear"@.len() != "sponsor_unlikely"@.len());
            reveal_strlit("explicit_no_sponsorship");
            assert("sponsor_unclear"@.len() != "explicit_no_sponsorship"@.len());
        },
        SponsorshipConfidence::SponsorUnlikely => {
            reveal_strlit("sponsor_unlikely");
            reveal_strlit("explicit_sponsor");
            assert("sponsor_unlikely"@[0] != "explicit_sponsor"@[0]);
            reveal_strlit("sponsor_likely");
            assert("sponsor_unlikely"@.len() != "sponsor_likely"@.len());
            reveal_strlit("sponsor_unclear");
            assert("sponsor_unlikely"@.len() != "sponsor_unclear"@.len());
            reveal_strlit("explicit_no_sponsorship");
            assert("sponsor_unlikely"@.len() != "explicit_no_sponsorship"@.len());
        },
        SponsorshipConfidence::ExplicitNoSponsorship => {
            reveal_strlit("explicit_no_sponsorship");
            reveal_strlit("explicit_sponsor");
            assert("explicit_no_sponsorship"@.len() != "explicit_sponsor"@.len());
            reveal_strlit("sponsor_likely");
            assert("explicit_no_sponsorship"@.len() != "sponsor_likely"@.len());
            reveal_strlit("sponsor_unclear");
            assert("explicit_no_sponsorship"@.len() != "sponsor_unclear"@.len());
            reveal_strlit("sponsor_unlikely");
            assert("explicit_no_sponsorship"@.len() != "sponsor_unlikely"@.len());
        },
    }
}

/// The stored word of a `JobStatus`.
pub open spec fn status_str_spec(x: JobStatus) -> Seq<char> {
    match x {
        JobStatus::New => "new"@,
        JobStatus::ResumePrepared => "resume_prepared"@,
        JobStatus::ReadyToApply => "ready_to_apply"@,
        JobStatus::Applied => "applied"@,
        JobStatus::OaReceived => "oa_received"@,
        JobStatus::Interview => "interview"@,
        JobStatus::Rejected => "rejected"@,
        JobStatus::Closed => "closed"@,
        JobStatus::Skipped => "skipped"@,
    }
}

/// The `JobStatus` a stored word stands for; unknown words give `New`.
pub open spec fn parse_status_spec(s: Seq<char>) -> JobStatus {
    if s == "resume_prepared"@ {
        JobStatus::ResumePrepared
    } else if s == "ready_to_apply"@ {
        JobStatus::ReadyToApply
    } else if s == "applied"@ {
        JobStatus::Applied
    } else if s == "oa_received"@ {
        JobStatus::OaReceived
    } else if s == "interview"@ {
        JobStatus::Interview
    } else if s == "rejected"@ {
        JobStatus::Rejected
    } else if s == "closed"@ {
        JobStatus::Closed
    } else if s == "skipped"@ {
        JobStatus::Skipped
    } else {
        JobStatus::New
    }
}

pub fn status_str(x: JobStatus) -> (r: &'static str)
    ensures
        r@ == status_str_spec(x),
{
    match x {
        JobStatus::New => "new",
        JobStatus::ResumePrepared => "resume_prepared",
        JobStatus::ReadyToApply => "ready_to_apply",
        JobStatus::Applied => "applied",
        JobStatus::OaReceived => "oa_received",
        JobStatus::Interview => "interview",
        JobStatus::Rejected => "rejected",
        JobStatus::Closed => "closed",
        JobStatus::Skipped => "skipped",
    }
}

pub fn parse_status(s: &str) -> (r: JobStatus)
    ensures
        r == parse_status_spec(s@),
{
    if str_eq(s, "resume_prepared") {
        JobStatus::ResumePrepared
    } else if str_eq(s, "ready_to_apply") {
        JobStatus::ReadyToApply
    } else if str_eq(s, "applied") {
        JobStatus::Applied
    } else if str_eq(s, "oa_received") {
        JobStatus::OaReceived
    } else if str_eq(s, "interview") {
        JobStatus::Interview
    } else if str_eq(s, "rejected") {
        JobStatus::Rejected
    } else if str_eq(s, "closed") {
        JobStatus::Closed
    } else if str_eq(s, "skipped") {
        JobStatus::Skipped
    } else {
        JobStatus::New
    }
}

/// Reading back the stored word of any `JobStatus` gives the same value.
pub proof fn lemma_status_round_trip(x: JobStatus)
    ensures
        parse_status_spec(status_str_spec(x)) == x,
{
    match x {
        JobStatus::New => {
            reveal_strlit("new");
            reveal_strlit("resume_prepared");
            assert("new"@.len() != "resume_prepared"@.len());
            reveal_strlit("ready_to_apply");
            assert("new"@.len() != "ready_to_apply"@.len());
            reveal_strlit("applied");
            assert("new"@.len() != "applied"@.len());
            reveal_strlit("oa_received");
            assert("new"@.len() != "oa_received"@.len());
            reveal_strlit("interview");
            assert("new"@.len() != "interview"@.len());
            reveal_strlit("rejected");
            assert("new"@.len() != "rejected"@.len());
            reveal_strlit("closed");
            assert("new"@.len() != "closed"@.len());
            reveal_strlit("skipped");
            assert("new"@.len() != "skipped"@.len());
        },
        JobStatus::ResumePrepared => {
            reveal_strlit("resume_prepared");
            reveal_strlit("new");
            assert("resume_prepared"@.len() != "new"@.len());
            reveal_strlit("ready_to_apply");
            assert("resume_prepared"@.len() != "ready_to_apply"@.len());
            reveal_strlit("applied");
            assert("resume_prepared"@.len() != "applied"@.len());
            reveal_strlit("oa_received");
            assert("resume_prepared"@.len() != "oa_received"@.len());
            reveal_strlit("interview");
            assert("resume_prepared"@.len() != "interview"@.len());
            reveal_strlit("rejected");
            assert("resume_prepared"@.len() != "rejected"@.len());
            reveal_strlit("closed");
            assert("resume_prepared"@.len() != "closed"@.len());
            reveal_strlit("skipped");
            assert("resume_prepared"@.len() != "skipped"@.len());
        },
        JobStatus::ReadyToApply => {
            reveal_strlit("ready_to_apply");
            reveal_strlit("new");
            assert("ready_to_apply"@.len() != "new"@.len());
            reveal_strlit("resume_prepared");
            assert("ready_to_apply"@.len() != "resume_prepared"@.len());
            reveal_strlit("applied");
            assert("ready_to_apply"@.len() != "applied"@.len());
            reveal_strlit("oa_received");
            assert("ready_to_apply"@.len() != "oa_received"@.len());
            reveal_strlit("interview");
            assert("ready_to_apply"@.len() != "interview"@.len());
            reveal_strlit("rejected");
            assert("ready_to_apply"@.len() != "rejected"@.len());
            reveal_strlit("closed");
            assert("ready_to_apply"@.len() != "closed"@.len());
            reveal_strlit("skipped");
            assert("ready_to_apply"@.len() != "skipped"@.len());
        },
        JobStatus::Applied => {
            reveal_strlit("applied");
            reveal_strlit("new");
            assert("applied"@.len() != "new"@.len());
            reveal_strlit("resume_prepared");
            assert("applied"@.len() != "resume_prepared"@.len());
            reveal_strlit("ready_to_apply");
            assert("applied"@.len() != "ready_to_apply"@.len());
            reveal_strlit("oa_received");
            assert("applied"@.len() != "oa_received"@.len());
            reveal_strlit("interview");
            assert("applied"@.len() != "interview"@.len());
            reveal_strlit("rejected");
            assert("applied"@.len() != "rejected"@.len());
            reveal_strlit("closed");
            assert("applied"@.len() != "closed"@.len());
            reveal_strlit("skipped");
            assert("applied"@[0] != "skipped"@[0]);
        },
        JobStatus::OaReceived => {
            reveal_strlit("oa_received");
            reveal_strlit("new");
            assert("oa_received"@.len() != "new"@.len());
            reveal_strlit("resume_prepared");
            assert("oa_received"@.len() != "resume_prepared"@.len());
            reveal_strlit("ready_to_apply");
            assert("oa_received"@.len() != "ready_to_apply"@.len());
            reveal_strlit("applied");
            assert("oa_received"@.len() != "applied"@.len());
            reveal_strlit("interview");
            assert("oa_received"@.len() != "interview"@.len());
            reveal_strlit("rejected");
            assert("oa_received"@.len() != "rejected"@.len());
            reveal_strlit("closed");
            assert("oa_received"@.len() != "closed"@.len());
            reveal_strlit("skipped");
            assert("oa_received"@.len() != "skipped"@.len());
        },
        JobStatus::Interview => {
            reveal_strlit("interview");
            reveal_strlit("new");
            assert("interview"@.len() != "new"@.len());
            reveal_strlit("resume_prepared");
            assert("interview"@.len() != "resume_prepared"@.len());
            reveal_strlit("ready_to_apply");
            assert("interview"@.len() != "ready_to_apply"@.len());
            reveal_strlit("applied");
            assert("interview"@.len() != "applied"@.len());
            reveal_strlit("oa_received");
            assert("interview"@.len() != "oa_received"@.len());
            reveal_strlit("rejected");
            assert("interview"@.len() != "rejected"@.len());
            reveal_strlit("closed");
            assert("interview"@.len() != "closed"@.len());
            reveal_strlit("skipped");
            assert("interview"@.len() != "skipped"@.len());
        },
        JobStatus::Rejected => {
            reveal_strlit("rejected");
            reveal_strlit("new");
            assert("rejected"@.len() != "new"@.len());
            reveal_strlit("resume_prepared");
            assert("rejected"@.len() != "resume_prepared"@.len());
            reveal_strlit("ready_to_apply");
            assert("rejected"@.len() != "ready_to_apply"@.len());
            reveal_strlit("applied");
            assert("rejected"@.len() != "applied"@.len());
            reveal_strlit("oa_received");
            assert("rejected"@.len() != "oa_received"@.len());
            reveal_strlit("interview");
            assert("rejected"@.len() != "interview"@.len());
            reveal_strlit("closed");
            assert("rejected"@.len() != "closed"@.len());
            reveal_strlit("skipped");
            assert("rejected"@.len() != "skipped"@.len());
        },
        JobStatus::Closed => {
            reveal_strlit("closed");
            reveal_strlit("new");
            assert("closed"@.len() != "new"@.len());
            reveal_strlit("resume_prepared");
            assert("closed"@.len() != "resume_prepared"@.len());
            reveal_strlit("ready_to_apply");
            assert("closed"@.len() != "ready_to_apply"@.len());
            reveal_strlit("applied");
            assert("closed"@.len() != "applied"@.len());
            reveal_strlit("oa_received");
            assert("closed"@.len() != "oa_received"@.len());
            reveal_strlit("interview");
            assert("closed"@.len() != "interview"@.len());
            reveal_strlit("rejected");
            assert("closed"@.len() != "rejected"@.len());
            reveal_strlit("skipped");
            assert("closed"@.len() != "skipped"@.len());
        },
        JobStatus::Skipped => {
            reveal_strlit("skipped");
            reveal_strlit("new");
            assert("skipped"@.len() != "new"@.len());
            reveal_strlit("resume_prepared");
            assert("skipped"@.len() != "resume_prepared"@.len());
            reveal_strlit("ready_to_apply");
            assert("skipped"@.len() != "ready_to_apply"@.len());
            reveal_strlit("applied");
            assert("skipped"@[0] != "applied"@[0]);
            reveal_strlit("oa_received");
            assert("skipped"@.len() != "oa_received"@.len());
            reveal_strlit("interview");
            assert("skipped"@.len() != "interview"@.len());
            reveal_strlit("rejected");
            assert("skipped"@.len() != "rejected"@.len());
            reveal_strlit("closed");
            assert("skipped"@.len() != "closed"@.len());
        },
    }
}

/// The stored word of a `ReuseStrategy`.
pub open spec fn reuse_str_spec(x: ReuseStrategy) -> Seq<char> {
    match x {
        ReuseStrategy::New => "new"@,
        ReuseStrategy::Reused => "reused"@,
        ReuseStrategy::EditedReuse => "edited_reuse"@,
    }
}

/// The `ReuseStrategy` a stored word stands for; unknown words give `New`.
pub open spec fn parse_reuse_spec(s: Seq<char>) -> ReuseStrategy {
    if s == "reused"@ {
        ReuseStrategy::Reused
    } else if s == "edited_reuse"@ {
        ReuseStrategy::EditedReuse
    } else {
        ReuseStrategy::New
    }
}

pub fn reuse_str(x: ReuseStrategy) -> (r: &'static str)
    ensures
        r@ == reuse_str_spec(x),
{
    match x {
        ReuseStrategy::New => "new",
        ReuseStrategy::Reused => "reused",
        ReuseStrategy::EditedReuse => "edited_reuse",
    }
}

pub fn parse_reuse(s: &str) -> (r: ReuseStrategy)
    ensures
        r == parse_reuse_spec(s@),
{
    if str_eq(s, "reused") {
        ReuseStrategy::Reused
    } else if str_eq(s, "edited_reuse") {
        ReuseStrategy::EditedReuse
    } else {
        ReuseStrategy::New
    }
}

/// Reading back the stored word of any `ReuseStrategy` gives the same value.
pub proof fn lemma_reuse_round_trip(x: ReuseStrategy)
    ensures
        parse_reuse_spec(reuse_str_spec(x)) == x,
{
    match x {
        ReuseStrategy::New => {
            reveal_strlit("new");
            reveal_strlit("reused");
            assert("new"@.len() != "reused"@.len());
            reveal_strlit("edited_reuse");
            assert("new"@.len() != "edited_reuse"@.len());
        },
        ReuseStrategy::Reused => {
            reveal_strlit("reused");
            reveal_strlit("new");
            assert("reused"@.len() != "new"@.len());
            reveal_strlit("edited_reuse");
            assert("reused"@.len() != "edited_reuse"@.len());
        },
        ReuseStrategy::EditedReuse => {
            reveal_strlit("edited_reuse");
            reveal_strlit("new");
            assert("edited_reuse"@.len() != "new"@.len());
            reveal_strlit("reused");
            assert("edited_reuse"@.len() != "reused"@.len());
        },
    }
}

/// The stored word of a recency bucket (`None` stays `None`).
pub open spec fn recency_str_spec(r: Option<RecencyBucket>) -> Option<Seq<char>> {
    match r {
        None => None,
        Some(RecencyBucket::Today) => Some("today"@),
        Some(RecencyBucket::Yesterday) => Some("yesterday"@),
        Some(RecencyBucket::Week) => Some("week"@),
        Some(RecencyBucket::TwoWeeks) => Some("two_weeks"@),
        Some(RecencyBucket::Month) => Some("month"@),
        Some(RecencyBucket::Older) => Some("older"@),
    }
}

/// The bucket a stored word stands for; missing or unknown words give `None`.
pub open spec fn parse_recency_spec(s: Option<Seq<char>>) -> Option<RecencyBucket> {
    match s {
        None => None,
        Some(w) => {
            if w == "today"@ {
                Some(RecencyBucket::Today)
            } else if w == "yesterday"@ {
                Some(RecencyBucket::Yesterday)
            } else if w == "week"@ {
                Some(RecencyBucket::Week)
            } else if w == "two_weeks"@ {
                Some(RecencyBucket::TwoWeeks)
            } else if w == "month"@ {
                Some(RecencyBucket::Month)
            } else if w == "older"@ {
                Some(RecencyBucket::Older)
            } else {
                None
            }
        },
    }
}

pub fn recency_str(r: Option<RecencyBucket>) -> (s: Option<&'static str>)
    ensures
        match s {
            None => recency_str_spec(r) is None,
            Some(w) => recency_str_spec(r) == Some(w@),
        },
{
    match r {
        None => None,
        Some(RecencyBucket::Today) => Some("today"),
        Some(RecencyBucket::Yesterday) => Some("yesterday"),
        Some(RecencyBucket::Week) => Some("week"),
        Some(RecencyBucket::TwoWeeks) => Some("two_weeks"),
        Some(RecencyBucket::Month) => Some("month"),
        Some(RecencyBucket::Older) => Some("older"),
    }
}

pub fn parse_recency(s: Option<String>) -> (r: Option<RecencyBucket>)
    ensures
        r == parse_recency_spec(
            match s {
                None => None,
                Some(w) => Some(w@),
            },
        ),
{
    match s {
        None => None,
        Some(w) => {
            let w = w.as_str();
            if str_eq(w, "today") {
                Some(RecencyBucket::Today)
            } else if str_eq(w, "yesterday") {
                Some(RecencyBucket::Yesterday)
            } else if str_eq(w, "week") {
                Some(RecencyBucket::Week)
            } else if str_eq(w, "two_weeks") {
                Some(RecencyBucket::TwoWeeks)
            } else if str_eq(w, "month") {
                Some(RecencyBucket::Month)
            } else if str_eq(w, "older") {
                Some(RecencyBucket::Older)
            } else {
                None
            }
        },
    }
}

/// Reading back the stored word of any bucket gives the same bucket.
pub proof fn lemma_recency_round_trip(r: Option<RecencyBucket>)
    ensures
        parse_recency_spec(recency_str_spec(r)) == r,
{
    match r {
        None => {},
        Some(RecencyBucket::Today) => {
            reveal_strlit("today");
            reveal_strlit("yesterday");
            assert("today"@.len() != "yesterday"@.len());
            reveal_strlit("week");
            assert("today"@.len() != "week"@.len());
            reveal_strlit("two_weeks");
            assert("today"@.len() != "two_weeks"@.len());
            reveal_strlit("month");
            assert("today"@[0] != "month"@[0]);
            reveal_strlit("older");
            assert("today"@[0] != "older"@[0]);
        },
        Some(RecencyBucket::Yesterday) => {
            reveal_strlit("yesterday");
            reveal_strlit("today");
            assert("yesterday"@.len() != "today"@.len());
            reveal_strlit("week");
            assert("yesterday"@.len() != "week"@.len());
            reveal_strlit("two_weeks");
            assert("yesterday"@[0] != "two_weeks"@[0]);
            reveal_strlit("month");
            assert("yesterday"@.len() != "month"@.len());
            reveal_strlit("older");
            assert("yesterday"@.len() != "older"@.len());
        },
        Some(RecencyBucket::Week) => {
            reveal_strlit("week");
            reveal_strlit("today");
            assert("week"@.len() != "today"@.len());
            reveal_strlit("yesterday");
            assert("week"@.len() != "yesterday"@.len());
            reveal_strlit("two_weeks");
            assert("week"@.len() != "two_weeks"@.len());
            reveal_strlit("month");
            assert("week"@.len() != "month"@.len());
            reveal_strlit("older");
            assert("week"@.len() != "older"@.len());
        },
        Some(RecencyBucket::TwoWeeks) => {
            reveal_strlit("two_weeks");
            reveal_strlit("today");
            assert("two_weeks"@.len() != "today"@.len());
            reveal_strlit("yesterday");
            assert("two_weeks"@[0] != "yesterday"@[0]);
            reveal_strlit("week");
            assert("two_weeks"@.len() != "week"@.len());
            reveal_strlit("month");
            assert("two_weeks"@.len() != "month"@.len());
            reveal_strlit("older");
            assert("two_weeks"@.len() != "older"@.len());
        },
        Some(RecencyBucket::Month) => {
            reveal_strlit("month");
            reveal_strlit("today");
            assert("month"@[0] != "today"@[0]);
            reveal_strlit("yesterday");
            assert("month"@.len() != "yesterday"@.len());
            reveal_strlit("week");
            assert("month"@.len() != "week"@.len());
            reveal_strlit("two_weeks");
            assert("month"@.len() != "two_weeks"@.len());
            reveal_strlit("older");
            assert("month"@[0] != "older"@[0]);
        },
        Some(RecencyBucket::Older) => {
            reveal_strlit("older");
            reveal_strlit("today");
            assert("older"@[0] != "today"@[0]);
            reveal_strlit("yesterday");
            assert("older"@.len() != "yesterday"@.len());
            reveal_strlit("week");
            assert("older"@.len() != "week"@.len());
            reveal_strlit("two_weeks");
            assert("older"@.len() != "two_weeks"@.len());
            reveal_strlit("month");
            assert("older"@[0] != "month"@[0]);
        },
    }
}

} // verus!
