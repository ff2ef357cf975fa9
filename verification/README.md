# job_search_tool

A local job-search assistant: it collects postings from public applicant
tracking systems (Greenhouse, Lever, Ashby) and manual imports, normalizes
them, ranks them by recency, location, work mode, sponsorship and skill fit,
tailors a resume per job, and keeps a folder tree per company and role.

## Layout

- `src/` is the library, written in Verus. Every function there carries a
  contract and is verified; the few calls into outside crates (chrono, regex,
  scraper, url, sha2, hex, serde_json, unicode-normalization) go through
  small trusted wrappers whose contracts are stated in their doc comments.
  - `ingestion/` turns board postings into job records (`normalize` holds
    HTML-to-text, name normalization, state, work mode, sponsorship, skills
    and recency; `runner` plans what an ingestion run stores and tallies it).
  - `ranking` holds the integer sub-scores and the recency window rules.
  - `resume/` holds the deterministic tailoring pass, the reuse bag of words
    and the prompts and checks around AI rewriting.
  - `files/` holds filesystem-safe names, the per-job folder plan and the
    headers of served files.
  - `job_query` builds the SQL of the job list filter.
  - `dates`, `text`, `int_text`, `sorted`, `unicode`, `urls`, `html`,
    `pattern`, `digest` are the building blocks the rest is stated in.
- `tests/` runs the library on concrete inputs.
- `app/` is the command-line program around the library: SQLite storage,
  HTTP fetching, the OS keyring, HTML rendering and PDF printing, and the
  floating-point composite score.
