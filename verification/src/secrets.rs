//! Names under which secrets live in the OS credential store.  Storing and
//! reading them is done by the application through the keyring crate.
use crate::int_text::{decimal, i64_text};
use crate::text::{chars_of, extend, string_of};
use vstd::prelude::*;

verus! {

/// The service name under which all entries are stored.  Stable across OS
/// backends (the "service" attribute of Keychain items, the target prefix
/// in Windows Credential Manager).
pub const SERVICE: &'static str = "jobsearchtool";

/// The entry name of an account's password.
pub open spec fn account_key(account_id: int) -> Seq<char> {
    "jobsearch:account:"@ + decimal(account_id)
}

/// The entry name of an account's password: `jobsearch:account:{id}`.
pub fn key_for(account_id: i64) -> (k: String)
    ensures
        k@ == account_key(account_id as int),
{
    let mut v = chars_of("jobsearch:account:");
    extend(&mut v, &chars_of(i64_text(account_id).as_str()));
    string_of(&v)
}

} // verus!
