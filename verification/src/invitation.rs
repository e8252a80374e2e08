//! Invitation codes as their creator lists them.

use vstd::prelude::*;
use crate::text::{string_of, trim, trimmed_chars};

verus! {

/// An invitation code as its creator sees it.
#[derive(Debug, Clone, PartialEq, Eq)]
pub struct InvitationInfo {
    pub code: String,
    pub bound_email: Option<String>,
    pub created_at: String,
    pub created_at_ts: i64,
    pub used_by_email: Option<String>,
    pub used_at: Option<String>,
    pub used_at_ts: Option<i64>,
    pub id: i32,
}

/// The address a new code is bound to: the given one trimmed, none when
/// it is absent or blank.
pub fn bound_email(email: Option<&str>) -> (b: Option<String>)
    ensures
        match email {
            Some(e) => if trim(e@).len() > 0 {
                b matches Some(s) && s@ == trim(e@)
            } else {
                b is None
            },
            None => b is None,
        },
{
    match email {
        Some(e) => {
            let t = trimmed_chars(e);
            if t.len() > 0 {
                Some(string_of(t.as_slice()))
            } else {
                None
            }
        },
        None => None,
    }
}

/// The address of the account that used a code, from the addresses of
/// the accounts that used codes; none when unused or the account is gone.
pub open spec fn used_by_email_spec(used_by: Option<i32>, emails: Seq<(i32, String)>) -> Option<String>
    decreases emails.len(),
{
    match used_by {
        None => None,
        Some(uid) => if emails.len() == 0 {
            None
        } else if emails.last().0 == uid {
            Some(emails.last().1)
        } else {
            used_by_email_spec(used_by, emails.drop_last())
        },
    }
}

/// The address of the account that used a code.
pub fn used_by_email(used_by: Option<i32>, emails: &[(i32, String)]) -> (e: Option<String>)
    ensures
        e == used_by_email_spec(used_by, emails@),
{
    let uid = match used_by {
        None => return None,
        Some(u) => u,
    };
    let mut i = emails.len();
    proof {
        assert(emails@.take(i as int) =~= emails@);
    }
    while i > 0
        invariant
            i <= emails@.len(),
            used_by == Some(uid),
            used_by_email_spec(used_by, emails@) == used_by_email_spec(used_by, emails@.take(i as int)),
        decreases i,
    {
        proof {
            let t = emails@.take(i as int);
            assert(t.drop_last() =~= emails@.take(i - 1));
            assert(t.last() == emails@[i - 1]);
        }
        if emails[i - 1].0 == uid {
            return Some(emails[i - 1].1.clone());
        }
        i = i - 1;
    }
    proof {
        assert(emails@.take(0) =~= Seq::<(i32, String)>::empty());
    }
    None
}

} // verus!
