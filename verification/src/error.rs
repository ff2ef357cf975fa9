//! The library's error type.  Failures of I/O, the database, HTTP and the
//! like belong to the application around the library, which wraps this
//! type in its own.
use vstd::prelude::*;

verus! {

#[derive(Debug, Clone, PartialEq, Eq)]
pub enum AppError {
    /// A string that should have been a URL did not parse.
    Url,
    Invalid(String),
    NotFound(String),
    Config(String),
    Other(String),
}

impl AppError {
    pub fn invalid(msg: &str) -> (e: AppError)
        ensures
            e matches AppError::Invalid(m) && m@ == msg@,
    {
        AppError::Invalid(crate::text::owned(msg))
    }

    pub fn not_found(msg: &str) -> (e: AppError)
        ensures
            e matches AppError::NotFound(m) && m@ == msg@,
    {
        AppError::NotFound(crate::text::owned(msg))
    }

    /// The message shown to the user (what `Display` writes).
    pub fn message(&self) -> (s: String)
        ensures
            s@ == match self {
                AppError::Url => "url parse error"@,
                AppError::Invalid(m) => "invalid input: "@ + m@,
                AppError::NotFound(m) => "not found: "@ + m@,
                AppError::Config(m) => "config error: "@ + m@,
                AppError::Other(m) => "other: "@ + m@,
            },
    {
        let (prefix, m) = match self {
            AppError::Url => {
                return crate::text::owned("url parse error");
            },
            AppError::Invalid(m) => ("invalid input: ", m),
            AppError::NotFound(m) => ("not found: ", m),
            AppError::Config(m) => ("config error: ", m),
            AppError::Other(m) => ("other: ", m),
        };
        let mut v = crate::text::chars_of(prefix);
        crate::text::extend(&mut v, &crate::text::chars_of(m.as_str()));
        crate::text::string_of(&v)
    }
}

} // verus!
