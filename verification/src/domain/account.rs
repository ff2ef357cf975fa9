use vstd::prelude::*;

verus! {

#[derive(Debug, Clone, Copy, PartialEq, Eq, Structural)]
pub enum PortalType {
    Workday,
    Greenhouse,
    Lever,
    Icims,
    Smartrecruiters,
    Ashby,
    OracleTaleo,
    Successfactors,
    Custom,
    Unknown,
}

/// An employer-portal login.  The password itself lives in the OS keychain;
/// `credential_key` is only the handle used to look it up.
#[derive(Debug, Clone)]
pub struct Account {
    pub id: i64,
    pub company_id: i64,
    pub portal_type: PortalType,
    pub login_url: Option<String>,
    pub username: Option<String>,
    pub credential_key: Option<String>,
    pub has_saved_password: bool,
    pub requires_2fa: bool,
    pub notes: Option<String>,
    pub last_used_at: Option<String>,
    pub created_at: String,
    pub updated_at: String,
}

/// Input for create/update.  A password, if given, is written to the OS
/// keychain and never persisted to the database or filesystem.
#[derive(Debug, Clone)]
pub struct AccountInput {
    pub company_id: i64,
    pub portal_type: PortalType,
    pub login_url: Option<String>,
    pub username: Option<String>,
    pub password: Option<String>,
    pub requires_2fa: bool,
    pub notes: Option<String>,
}

} // verus!
