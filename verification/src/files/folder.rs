//! What goes into the per-job folder tree: the folder names and the
//! contents of the small files written beside the JD.  Creating the
//! folders and writing the files is left to the caller.
use crate::domain::job::JobIngest;
use crate::files::paths::{role_folder, role_folder_name, safe_slug, slug};
use crate::ingestion::runner::opt_str;
use crate::text::{
    byte_len, byte_len_at_most, chars_of, extend, is_upper_ascii, line_ranges, lines_of, owned, ranges_view,
    string_of, sub_vec, trim, trim_bounds, TrimSet,
};
use vstd::prelude::*;

verus! {

/// Paths persisted back to the `jobs` row.
#[derive(Debug, Clone)]
pub struct JobPaths {
    pub company_folder: String,
    pub role_folder: String,
    pub jd_file: String,
    pub jd_summary_file: String,
    pub metadata_file: String,
    pub apply_link_file: String,
}

/// Longest JD line (in bytes) that can stand in for a folder name.
pub const KEYWORD_MAX_BYTES: usize = 80;

/// A trimmed line that reads like a title: it starts with a capital letter
/// (`A` to `Z`) and is at most `KEYWORD_MAX_BYTES` bytes long.
pub open spec fn title_like(l: Seq<char>) -> bool {
    &&& l.len() > 0
    &&& is_upper_ascii(l[0])
    &&& byte_len(l) <= KEYWORD_MAX_BYTES
}

/// The first line of `lines`, trimmed, that is title-like.
pub open spec fn first_fitting_line(lines: Seq<Seq<char>>) -> Option<Seq<char>>
    decreases lines.len(),
{
    if lines.len() == 0 {
        None
    } else {
        let l = trim(lines[0]);
        if title_like(l) {
            Some(l)
        } else {
            first_fitting_line(lines.drop_first())
        }
    }
}

/// A short keyword from the JD to use as a folder name fallback: its first
/// title-like line (capitalized, at most 80 bytes, once trimmed).
pub open spec fn jd_keyword(jd: Option<Seq<char>>) -> Option<Seq<char>> {
    match jd {
        None => None,
        Some(t) => first_fitting_line(lines_of(t)),
    }
}

/// Pick a short keyword from the JD to use as a folder name fallback.
pub fn first_keyword(jd: Option<&str>) -> (r: Option<String>)
    ensures
        r.deep_view() == jd_keyword(
            match jd {
                Some(t) => Some(t@),
                None => None,
            },
        ),
{
    let text = match jd {
        Some(t) => t,
        None => {
            return None;
        },
    };
    let v = chars_of(text);
    let ranges = line_ranges(&v);
    let ghost ls = lines_of(v@);
    let mut k: usize = 0;
    assert(ls.skip(0) =~= ls);
    while k < ranges.len()
        invariant
            k <= ranges.len(),
            jd == Some(text),
            v@ == text@,
            ls == lines_of(v@),
            ls == ranges_view(v@, ranges@),
            ranges@.len() == ls.len(),
            forall|j: int| 0 <= j < ranges@.len() ==> #[trigger] ranges@[j].0 <= ranges@[j].1
                && ranges@[j].1 <= v.len(),
            first_fitting_line(ls) == first_fitting_line(ls.skip(k as int)),
        decreases ranges.len() - k,
    {
        let (a, b) = ranges[k];
        assert(ranges@[k as int].0 <= ranges@[k as int].1 <= v.len());
        let (x, y) = trim_bounds(&v, a, b, TrimSet::Whitespace, true, true);
        let ghost line = ls[k as int];
        assert(line == v@.subrange(a as int, b as int));
        assert(v@.subrange(x as int, y as int) == trim(line));
        assert(ls.skip(k as int)[0] == line);
        assert(ls.skip(k as int).drop_first() =~= ls.skip(k + 1));
        if y > x && v[x] >= 'A' && v[x] <= 'Z' && byte_len_at_most(&v, x, y, KEYWORD_MAX_BYTES) {
            assert(trim(line)[0] == v@[x as int]);
            assert(first_fitting_line(ls.skip(k as int)) == Some(trim(line)));
            let found = string_of(&sub_vec(&v, x, y));
            assert(found@ == trim(line));
            return Some(found);
        }
        k = k + 1;
    }
    assert(ls.skip(k as int) =~= Seq::<Seq<char>>::empty());
    None
}

/// What the folder tree of a job holds: the date folder, the company and
/// role folder names, and the contents of the files written into it.
#[derive(Debug)]
pub struct JobTreePlan {
    pub date: String,
    pub company_segment: String,
    pub role_segment: String,
    pub jd_contents: String,
    pub summary_contents: String,
    pub apply_link_contents: String,
}

/// The URL a job's shortcut points to: the apply link, else the posting.
pub open spec fn shortcut_url(ingest: JobIngest) -> Seq<char> {
    match ingest.apply_url {
        Some(u) => u@,
        None => match ingest.source_url {
            Some(u) => u@,
            None => seq![],
        },
    }
}

/// An Internet-shortcut (`.url`) file opening `url`.
pub open spec fn shortcut_text(url: Seq<char>) -> Seq<char> {
    "[InternetShortcut]\r\nURL="@ + url + "\r\n"@
}

pub open spec fn opt_or_empty(o: Option<Seq<char>>) -> Seq<char> {
    match o {
        Some(s) => s,
        None => seq![],
    }
}

/// Plan the folder tree of `ingest`: dated by its posting date (or
/// `today`, as `YYYY-MM-DD`), named by company and role, holding the JD,
/// its summary and a shortcut to apply.
pub fn plan_job_tree(posted_date: Option<&str>, today: &str, ingest: &JobIngest, jd_summary: Option<&str>) -> (r:
    JobTreePlan)
    ensures
        r.date@ == match posted_date {
            Some(d) => d@,
            None => today@,
        },
        r.company_segment@ == slug(ingest.company_name@),
        r.role_segment@ == role_folder(
            ingest.job_external_id.deep_view(),
            ingest.role_title@,
            jd_keyword(ingest.jd_text.deep_view()),
        ),
        r.jd_contents@ == opt_or_empty(ingest.jd_text.deep_view()),
        r.summary_contents@ == opt_or_empty(
            match jd_summary {
                Some(s) => Some(s@),
                None => None,
            },
        ),
        r.apply_link_contents@ == shortcut_text(shortcut_url(*ingest)),
{
    let date = match posted_date {
        Some(d) => owned(d),
        None => owned(today),
    };
    let jd = opt_str(&ingest.jd_text);
    let keyword = first_keyword(jd);
    let role_segment = role_folder_name(
        opt_str(&ingest.job_external_id),
        ingest.role_title.as_str(),
        opt_str(&keyword),
    );
    let jd_contents = match jd {
        Some(t) => owned(t),
        None => String::new(),
    };
    let summary_contents = match jd_summary {
        Some(s) => owned(s),
        None => String::new(),
    };
    proof {
        reveal_strlit("");
    }
    let url = match &ingest.apply_url {
        Some(u) => u.as_str(),
        None => match &ingest.source_url {
            Some(u) => u.as_str(),
            None => "",
        },
    };
    assert(url@ == shortcut_url(*ingest));
    let mut link = chars_of("[InternetShortcut]\r\nURL=");
    extend(&mut link, &chars_of(url));
    extend(&mut link, &chars_of("\r\n"));
    JobTreePlan {
        date,
        company_segment: safe_slug(ingest.company_name.as_str()),
        role_segment,
        jd_contents,
        summary_contents,
        apply_link_contents: string_of(&link),
    }
}

} // verus!
