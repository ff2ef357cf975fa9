//! The rows and queries of the jobs table: what is written for a posting,
//! and the SQL behind the filtered job list (which conditions the query
//! holds and which named parameters carry the filter's words).  Running
//! the statements is left to the caller, which also binds `:min_score` (a
//! float) and `:company_id` when the filter has them.
use crate::db_codes::{recency_str, recency_str_spec, status_str, status_str_spec};
use crate::domain::job::{
    source_name_text, JobIngest, JobStatus, RecencyBucket, SponsorshipConfidence, WorkMode,
};
use crate::ingestion::runner::PersistPlan;
use crate::int_text::{decimal, usize_text};
use crate::text::{chars_of, copy_opt, extend, joined, owned, string_of};
use vstd::prelude::*;

verus! {

/// Input for persisting a new (or refreshed) job.  Output fields like
/// `match_score`, folder paths, and `status` are set later in the pipeline.
#[derive(Debug, Clone)]
pub struct JobInsert {
    pub company_id: i64,
    pub source_name: String,
    pub source_url: Option<String>,
    pub apply_url: Option<String>,
    pub role_title: String,
    pub normalized_role_title: String,
    pub job_external_id: Option<String>,
    pub location: Option<String>,
    pub state_or_region: Option<String>,
    pub work_mode: WorkMode,
    pub posted_date: Option<String>,
    pub recency_bucket: Option<RecencyBucket>,
    pub jd_text: Option<String>,
    pub jd_summary: Option<String>,
    pub sponsorship_confidence: SponsorshipConfidence,
    pub sponsorship_reason: Option<String>,
}

/// The row written for `ingest` at company `company_id`, with what `plan`
/// derived from it.
pub fn job_insert(company_id: i64, ingest: &JobIngest, plan: &PersistPlan) -> (r: JobInsert)
    ensures
        r.company_id == company_id,
        r.source_name@ == source_name_text(ingest.source_name),
        r.source_url == ingest.source_url,
        r.apply_url == ingest.apply_url,
        r.role_title == ingest.role_title,
        r.normalized_role_title == plan.normalized_role_title,
        r.job_external_id == ingest.job_external_id,
        r.location == ingest.location,
        r.state_or_region == plan.state_or_region,
        r.work_mode == plan.work_mode,
        r.posted_date == ingest.posted_date,
        r.recency_bucket == plan.recency_bucket,
        r.jd_text == ingest.jd_text,
        r.jd_summary == plan.jd_summary,
        r.sponsorship_confidence == plan.sponsorship,
        r.sponsorship_reason == plan.sponsorship_reason,
{
    JobInsert {
        company_id,
        source_name: owned(ingest.source_name.as_str()),
        source_url: copy_opt(&ingest.source_url),
        apply_url: copy_opt(&ingest.apply_url),
        role_title: ingest.role_title.clone(),
        normalized_role_title: plan.normalized_role_title.clone(),
        job_external_id: copy_opt(&ingest.job_external_id),
        location: copy_opt(&ingest.location),
        state_or_region: copy_opt(&plan.state_or_region),
        work_mode: plan.work_mode,
        posted_date: copy_opt(&ingest.posted_date),
        recency_bucket: plan.recency_bucket,
        jd_text: copy_opt(&ingest.jd_text),
        jd_summary: copy_opt(&plan.jd_summary),
        sponsorship_confidence: plan.sponsorship,
        sponsorship_reason: copy_opt(&plan.sponsorship_reason),
    }
}

pub const SELECT_BASE: &'static str = "SELECT
    id, company_id, source_name, source_url, apply_url, role_title,
    normalized_role_title, job_external_id, location, state_or_region,
    work_mode, posted_date, recency_bucket, jd_text, jd_summary,
    sponsorship_confidence, sponsorship_reason, match_score, match_explanation,
    role_folder_path, jd_file_path, resume_file_path, cover_letter_file_path,
    status, created_at, updated_at FROM jobs";

/// A filtered job query: its SQL and its named text parameters.
#[derive(Debug)]
pub struct FilterQuery {
    pub sql: String,
    pub text_binds: Vec<(String, String)>,
}

/// The placeholder of the `i`-th recency bucket.
pub open spec fn recency_param(i: int) -> Seq<char> {
    ":r"@ + decimal(i)
}

/// `s` when `cond` holds, nothing otherwise.
pub open spec fn when(cond: bool, s: Seq<char>) -> Seq<char> {
    if cond {
        s
    } else {
        seq![]
    }
}

/// The SQL of a filtered job list.
pub open spec fn filter_sql(
    has_min_score: bool,
    has_status: bool,
    recency: Option<Seq<RecencyBucket>>,
    has_company: bool,
    include_explicit_no_sponsorship: bool,
) -> Seq<char> {
    SELECT_BASE@ + " WHERE 1=1"@ + when(has_min_score, " AND match_score >= :min_score"@) + when(
        has_status,
        " AND status = :status"@,
    ) + match recency {
        Some(list) => when(
            list.len() > 0,
            " AND recency_bucket IN ("@ + joined(
                Seq::new(list.len(), |i: int| recency_param(i)),
                ","@,
            ) + ")"@,
        ),
        None => seq![],
    } + when(has_company, " AND company_id = :company_id"@) + when(
        !include_explicit_no_sponsorship,
        " AND sponsorship_confidence <> 'explicit_no_sponsorship'"@,
    ) + " ORDER BY match_score DESC, posted_date DESC"@
}

/// The named text parameters: the status word, then one word per
/// recency bucket.
pub open spec fn filter_text_binds(status: Option<JobStatus>, recency: Option<Seq<RecencyBucket>>) -> Seq<
    (Seq<char>, Seq<char>),
> {
    (match status {
        Some(st) => seq![(":status"@, status_str_spec(st))],
        None => seq![],
    }) + match recency {
        Some(list) => Seq::new(
            list.len(),
            |i: int| (recency_param(i), recency_str_spec(Some(list[i]))->0),
        ),
        None => seq![],
    }
}

pub open spec fn binds_view(b: Seq<(String, String)>) -> Seq<(Seq<char>, Seq<char>)> {
    b.map_values(|p: (String, String)| (p.0@, p.1@))
}

fn push_when(out: &mut Vec<char>, cond: bool, s: &str)
    ensures
        final(out)@ == old(out)@ + when(cond, s@),
{
    if cond {
        extend(out, &chars_of(s));
    } else {
        assert(old(out)@ + seq![] =~= old(out)@);
    }
}

/// Build the query for a filtered job list.
pub fn filter_query(
    has_min_score: bool,
    status: Option<JobStatus>,
    recency: Option<&Vec<RecencyBucket>>,
    company_id: Option<i64>,
    include_explicit_no_sponsorship: bool,
) -> (q: FilterQuery)
    ensures
        q.sql@ == filter_sql(
            has_min_score,
            status is Some,
            match recency {
                Some(l) => Some(l@),
                None => None,
            },
            company_id is Some,
            include_explicit_no_sponsorship,
        ),
        binds_view(q.text_binds@) == filter_text_binds(
            status,
            match recency {
                Some(l) => Some(l@),
                None => None,
            },
        ),
{
    let mut sql = chars_of(SELECT_BASE);
    extend(&mut sql, &chars_of(" WHERE 1=1"));
    push_when(&mut sql, has_min_score, " AND match_score >= :min_score");
    push_when(&mut sql, status.is_some(), " AND status = :status");
    let ghost before_recency = sql@;
    if let Some(list) = recency {
        if list.len() > 0 {
            extend(&mut sql, &chars_of(" AND recency_bucket IN ("));
            let ghost head = sql@;
            let ghost names = Seq::new(list@.len(), |i: int| recency_param(i));
            let mut i: usize = 0;
            while i < list.len()
                invariant
                    i <= list.len(),
                    names == Seq::new(list@.len(), |i: int| recency_param(i)),
                    sql@ == head + joined(names.take(i as int), ","@),
                decreases list.len() - i,
            {
                assert(names.take(i + 1).drop_last() =~= names.take(i as int));
                assert(names.take(i + 1).last() == recency_param(i as int));
                if i > 0 {
                    sql.push(',');
                    assert(seq![','] == ","@) by {
                        reveal_strlit(",");
                    }
                } else {
                    assert(names.take(1) =~= seq![names[0]]);
                }
                extend(&mut sql, &chars_of(":r"));
                extend(&mut sql, &chars_of(usize_text(i).as_str()));
                assert(sql@ =~= head + joined(names.take(i + 1), ","@));
                i = i + 1;
            }
            assert(names.take(i as int) =~= names);
            sql.push(')');
            assert(seq![')'] == ")"@) by {
                reveal_strlit(")");
            }
            assert(sql@ =~= before_recency + (" AND recency_bucket IN ("@ + joined(names, ","@)
                + ")"@));
        } else {
            assert(sql@ =~= before_recency + seq![]);
        }
    } else {
        assert(sql@ =~= before_recency + seq![]);
    }
    push_when(&mut sql, company_id.is_some(), " AND company_id = :company_id");
    push_when(
        &mut sql,
        !include_explicit_no_sponsorship,
        " AND sponsorship_confidence <> 'explicit_no_sponsorship'",
    );
    extend(&mut sql, &chars_of(" ORDER BY match_score DESC, posted_date DESC"));
    let mut binds: Vec<(String, String)> = Vec::new();
    if let Some(st) = status {
        binds.push((owned(":status"), owned(status_str(st))));
    }
    let ghost first = binds_view(binds@);
    assert(first =~= match status {
        Some(st) => seq![(":status"@, status_str_spec(st))],
        None => Seq::<(Seq<char>, Seq<char>)>::empty(),
    });
    if let Some(list) = recency {
        let mut i: usize = 0;
        while i < list.len()
            invariant
                i <= list.len(),
                binds_view(binds@) == first + Seq::new(
                    i as nat,
                    |k: int| (recency_param(k), recency_str_spec(Some(list@[k]))->0),
                ),
            decreases list.len() - i,
        {
            let word = match recency_str(Some(list[i])) {
                Some(w) => w,
                None => "",
            };
            let mut name = chars_of(":r");
            extend(&mut name, &chars_of(usize_text(i).as_str()));
            let ghost before = binds_view(binds@);
            binds.push((string_of(&name), owned(word)));
            assert(binds_view(binds@) =~= before.push((recency_param(i as int), recency_str_spec(Some(list@[i as int]))->0)));
            assert(binds_view(binds@) =~= first + Seq::new(
                (i + 1) as nat,
                |k: int| (recency_param(k), recency_str_spec(Some(list@[k]))->0),
            ));
            i = i + 1;
        }
    } else {
        assert(binds_view(binds@) =~= first + Seq::<(Seq<char>, Seq<char>)>::empty());
    }
    FilterQuery { sql: string_of(&sql), text_binds: binds }
}

} // verus!
