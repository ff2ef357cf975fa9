//! Job ingestion.  A `Source` names a public ATS board; its postings become
//! `JobIngest` records that the normalizer and ranker turn into job rows.
//!
//! Adding a new source: give it a module with its posting shape and
//! `to_ingest`, add a variant to `Source`, and name it in `Source::name`.
pub mod ashby;
pub mod greenhouse;
pub mod lever;
pub mod linkedin;
pub mod manual;
pub mod normalize;
pub mod runner;

use vstd::prelude::*;

verus! {

/// A configured source and its board slug.
#[derive(Debug, Clone)]
pub enum Source {
    Greenhouse { slug: String },
    Lever { slug: String },
    Ashby { slug: String },
}

/// The source name recorded in run summaries.
pub open spec fn source_label(s: Source) -> Seq<char> {
    match s {
        Source::Greenhouse { .. } => "greenhouse"@,
        Source::Lever { .. } => "lever"@,
        Source::Ashby { .. } => "ashby"@,
    }
}

impl Source {
    pub fn name(&self) -> (r: &'static str)
        ensures
            r@ == source_label(*self),
    {
        match self {
            Source::Greenhouse { .. } => "greenhouse",
            Source::Lever { .. } => "lever",
            Source::Ashby { .. } => "ashby",
        }
    }

    /// The public board URL that lists the source's postings.
    pub fn board_url(&self) -> (r: String)
        ensures
            r@ == match *self {
                Source::Greenhouse { slug } => greenhouse::board_url_text(slug@),
                Source::Lever { slug } => lever::board_url_text(slug@),
                Source::Ashby { slug } => ashby::board_url_text(slug@),
            },
    {
        match self {
            Source::Greenhouse { slug } => greenhouse::board_url(slug.as_str()),
            Source::Lever { slug } => lever::board_url(slug.as_str()),
            Source::Ashby { slug } => ashby::board_url(slug.as_str()),
        }
    }
}

/// A source as the user interface describes it.
#[derive(Debug, Clone)]
pub enum SourceSpec {
    Greenhouse { slug: String },
    Lever { slug: String },
    Ashby { slug: String },
}

impl From<SourceSpec> for Source {
    fn from(s: SourceSpec) -> (r: Source) {
        match s {
            SourceSpec::Greenhouse { slug } => Source::Greenhouse { slug },
            SourceSpec::Lever { slug } => Source::Lever { slug },
            SourceSpec::Ashby { slug } => Source::Ashby { slug },
        }
    }
}

impl vstd::std_specs::convert::FromSpecImpl<SourceSpec> for Source {
    open spec fn obeys_from_spec() -> bool {
        true
    }

    open spec fn from_spec(s: SourceSpec) -> Source {
        match s {
            SourceSpec::Greenhouse { slug } => Source::Greenhouse { slug },
            SourceSpec::Lever { slug } => Source::Lever { slug },
            SourceSpec::Ashby { slug } => Source::Ashby { slug },
        }
    }
}

} // verus!
