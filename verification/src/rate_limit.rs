//! Keys of the authentication rate limiters.

use vstd::prelude::*;
use crate::text::{owned, push_char, push_signed_decimal, push_str, signed_decimal};

verus! {

/// The key failed library-password checks are counted under:
/// `repo_pw:<user id>:<repo id>`. Every endpoint that checks a library
/// password uses it, so no endpoint offers an unmetered guess.
pub fn repo_password_key(user_id: i32, repo_id: &str) -> (k: String)
    ensures
        k@ == "repo_pw:"@ + signed_decimal(user_id as int) + seq![':'] + repo_id@,
{
    let mut k = owned("repo_pw:");
    push_signed_decimal(&mut k, user_id as i64);
    push_char(&mut k, ':');
    push_str(&mut k, repo_id);
    k
}

} // verus!
