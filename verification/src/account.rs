//! An account as its owner sees it.

use vstd::prelude::*;
use crate::text::{trim, trimmed_chars, string_of};

verus! {

/// The account page's data.
#[derive(Debug, Clone, PartialEq, Eq)]
pub struct AccountInfo {
    pub email: String,
    pub name: String,
    pub nickname: Option<String>,
    pub id: i32,
    /// Space used, in bytes.
    pub usage: i64,
    /// The quota in bytes; -1 for unlimited.
    pub total: i64,
    pub avatar_url: String,
    /// The contact address: the login address.
    pub contact_email: String,
    /// Space used as a percentage of the quota.
    pub space_usage: String,
}

/// The quota an account shows: -1 for unlimited (an explicit zero, or no
/// setting and no global cap), the account's own setting, or the global
/// cap.
pub open spec fn account_total_spec(storage_quota: Option<i64>, max_storage_bytes: u64) -> i64 {
    match storage_quota {
        Some(n) => if n == 0 { -1i64 } else { n },
        None => if max_storage_bytes > 0 { max_storage_bytes as i64 } else { -1i64 },
    }
}

/// The quota an account shows.
pub fn account_total(storage_quota: Option<i64>, max_storage_bytes: u64) -> (t: i64)
    ensures
        t == account_total_spec(storage_quota, max_storage_bytes),
{
    match storage_quota {
        Some(n) => if n == 0 {
            -1
        } else {
            n
        },
        None => if max_storage_bytes > 0 {
            #[verifier::truncate]
            (max_storage_bytes as i64)
        } else {
            -1
        },
    }
}

/// The display name an update stores: none for an empty input, otherwise
/// the input trimmed (so a blank input stores an empty name).
pub fn display_name_update(name: &str) -> (d: Option<String>)
    ensures
        match d {
            Some(n) => name@.len() > 0 && n@ == trim(name@),
            None => name@.len() == 0,
        },
{
    if name.is_empty() {
        None
    } else {
        Some(string_of(trimmed_chars(name).as_slice()))
    }
}

} // verus!
