//! AI rewriting of a whole canonical profile: the request text, the
//! errors, and the variant name recorded for the result.  The HTTP
//! exchange and the JSON (de)serialization of the profile are done by the
//! application.
use crate::error::AppError;
use crate::ingestion::normalize::{cut_ok, lemma_clean_cut_is_slice, prefix_bytes, prefix_within};
use crate::text::{byte_len, chars_of, extend, string_of};
use vstd::prelude::*;

verus! {

/// The system prompt of a profile rewrite.
pub const PROFILE_SYSTEM: &'static str = "You are an expert resume writer helping a job seeker tailor their resume. Given a canonical resume profile in JSON and a job description, rewrite the resume. Rules you MUST follow:\n- Never invent achievements, companies, titles, dates, metrics, or technologies not in the profile\n- You may reorder, trim, and rephrase existing bullets to emphasize relevance\n- Keep the exact same JSON schema as the input\n- The \"summary\" field (if present) should be rewritten to directly address this role\n- Return ONLY the JSON object with no markdown, no code fences, no explanation";

/// How many bytes of the role title the variant name keeps.
pub const VARIANT_TITLE_BYTES: usize = 20;

/// The user message of a profile rewrite.
pub open spec fn profile_message(role_title: Seq<char>, jd_text: Seq<char>, profile_json: Seq<char>) -> Seq<
    char,
> {
    "Role: "@ + role_title + "\n\nJob Description:\n"@ + jd_text + "\n\nCanonical Profile:\n"@
        + profile_json
}

pub fn profile_rewrite_message(role_title: &str, jd_text: &str, profile_json: &str) -> (r: String)
    ensures
        r@ == profile_message(role_title@, jd_text@, profile_json@),
{
    let mut v = chars_of("Role: ");
    extend(&mut v, &chars_of(role_title));
    extend(&mut v, &chars_of("\n\nJob Description:\n"));
    extend(&mut v, &chars_of(jd_text));
    extend(&mut v, &chars_of("\n\nCanonical Profile:\n"));
    extend(&mut v, &chars_of(profile_json));
    string_of(&v)
}

/// The variant name of an AI-rewritten resume: `ai-tailored-` and the
/// role title's first `VARIANT_TITLE_BYTES` bytes (all of a shorter title),
/// a cut that must end between two chars.
pub fn ai_variant_name(role_title: &str) -> (r: String)
    requires
        cut_ok(role_title@, VARIANT_TITLE_BYTES as int),
    ensures
        r@ == "ai-tailored-"@ + prefix_within(role_title@, VARIANT_TITLE_BYTES as int),
        ({
            let p = prefix_within(role_title@, VARIANT_TITLE_BYTES as int);
            &&& p.len() <= role_title@.len()
            &&& p == role_title@.take(p.len() as int)
            &&& byte_len(p) == if byte_len(role_title@) < VARIANT_TITLE_BYTES {
                byte_len(role_title@) as int
            } else {
                VARIANT_TITLE_BYTES as int
            }
        }),
{
    proof {
        lemma_clean_cut_is_slice(role_title@, VARIANT_TITLE_BYTES as int);
    }
    let mut v = chars_of("ai-tailored-");
    extend(&mut v, &prefix_bytes(&chars_of(role_title), VARIANT_TITLE_BYTES));
    string_of(&v)
}

/// The error for a failing HTTP status of a profile rewrite.
pub fn profile_api_error(status: &str, body: &str) -> (e: AppError)
    ensures
        e matches AppError::Invalid(m) && m@ == "Anthropic API error "@ + status@ + ": "@ + body@,
{
    let mut v = chars_of("Anthropic API error ");
    extend(&mut v, &chars_of(status));
    extend(&mut v, &chars_of(": "));
    extend(&mut v, &chars_of(body));
    AppError::Invalid(string_of(&v))
}

/// The error for a reply that is not a profile in JSON.
pub fn profile_json_error(parse_error: &str, content: &str) -> (e: AppError)
    ensures
        e matches AppError::Invalid(m) && m@ == "AI returned invalid JSON: "@ + parse_error@
            + "\n\nResponse was:\n"@ + content@,
{
    let mut v = chars_of("AI returned invalid JSON: ");
    extend(&mut v, &chars_of(parse_error));
    extend(&mut v, &chars_of("\n\nResponse was:\n"));
    extend(&mut v, &chars_of(content));
    AppError::Invalid(string_of(&v))
}

} // verus!
