//! Registration with an invitation code: which requests are refused, and
//! with what answer.

use vstd::prelude::*;
use vstd::utf8::encode_utf8;
use crate::crypto::utf8_bytes;
use crate::error::{AppError, bad_request, is_bad_request};
use crate::password::{password_problem, validate_password};
use crate::text::{chars_of, str_eq, to_lowercase, unicode_lowercase};

verus! {

/// What a registration request carries.
pub struct RegistrationParams {
    pub email: String,
    pub password: String,
    pub invitation_code: String,
    pub password_min_length: usize,
    pub require_strong_password: bool,
    pub password_hash_iterations: u32,
}

/// The invitation code a request names, as it is stored.
pub struct InvitationCodeState {
    /// The code was already used.
    pub used: bool,
    /// The address the code is bound to, if any.
    pub bound_email: Option<String>,
}

/// Why a registration is refused, checked in this order: the code is
/// unknown, already used, or bound to another address (compared
/// lowercased); the address has no `@` or is over 254 bytes; the address
/// is taken (answered like an unknown code, so the endpoint tells nobody
/// which addresses exist); the password is unacceptable.
pub open spec fn registration_problem(
    code: Option<InvitationCodeState>,
    email: Seq<char>,
    email_taken: bool,
    password: Seq<char>,
    min_length: u32,
    require_strong: bool,
) -> Option<Seq<char>> {
    match code {
        None => Some("Invalid invitation code."@),
        Some(c) => if c.used {
            Some("This invitation code has already been used."@)
        } else if (c.bound_email matches Some(b) && unicode_lowercase(b@) != unicode_lowercase(email)) {
            Some("This invitation code is bound to a different email address."@)
        } else if !email.contains('@') || encode_utf8(email).len() > 254 {
            Some("Invalid email address."@)
        } else if email_taken {
            Some("Invalid invitation code."@)
        } else {
            password_problem(password, min_length, require_strong)
        },
    }
}

fn has_at(s: &str) -> (b: bool)
    ensures
        b == s@.contains('@'),
{
    let v = chars_of(s);
    let mut i: usize = 0;
    while i < v.len()
        invariant
            i <= v@.len(),
            v@ == s@,
            forall|k: int| 0 <= k < i ==> #[trigger] v@[k] != '@',
        decreases v@.len() - i,
    {
        if v[i] == '@' {
            proof {
                assert(s@[i as int] == '@');
            }
            return true;
        }
        i = i + 1;
    }
    false
}

/// Whether a registration may go ahead; refused with `BadRequest` and the
/// message `registration_problem` gives.
pub fn check_registration(
    code: Option<&InvitationCodeState>,
    email: &str,
    email_taken: bool,
    password: &str,
    min_length: u32,
    require_strong: bool,
) -> (r: Result<(), AppError>)
    ensures
        match registration_problem(
            match code {
                Some(c) => Some(*c),
                None => None,
            },
            email@,
            email_taken,
            password@,
            min_length,
            require_strong,
        ) {
            None => r is Ok,
            Some(m) => r matches Err(e) && is_bad_request(e, m),
        },
{
    let c = match code {
        None => return Err(bad_request("Invalid invitation code.")),
        Some(c) => c,
    };
    if c.used {
        return Err(bad_request("This invitation code has already been used."));
    }
    if let Some(b) = &c.bound_email {
        let bl = to_lowercase(b.as_str());
        let el = to_lowercase(email);
        if !str_eq(bl.as_str(), el.as_str()) {
            return Err(bad_request("This invitation code is bound to a different email address."));
        }
    }
    if !has_at(email) || utf8_bytes(email).len() > 254 {
        return Err(bad_request("Invalid email address."));
    }
    if email_taken {
        return Err(bad_request("Invalid invitation code."));
    }
    match validate_password(password, min_length, require_strong) {
        Ok(()) => Ok(()),
        Err(m) => Err(AppError::BadRequest(m)),
    }
}

} // verus!
