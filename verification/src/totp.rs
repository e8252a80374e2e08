//! Time-based one-time passwords for two-factor sign-in. The codes
//! themselves come from `totp-rs`; what is decided here is that a code is
//! used at most once: a code whose time step is not after the last step
//! accepted for the account is refused, though the clock-skew window would
//! still match it.

use vstd::prelude::*;
use crate::error::AppError;
use crate::text::owned;
use totp_rs::{Builder, Secret, Totp};

verus! {

#[verifier::external_type_specification]
#[verifier::external_body]
pub struct ExTotp(Totp);

/// The bytes a base32 text (RFC 4648 alphabet, no padding) stands for, none
/// when it is not base32.
pub uninterp spec fn base32_secret(text: Seq<char>) -> Option<Seq<u8>>;

/// The `otpauth://` URL of a code generator for a secret, account and
/// issuer, as `totp-rs` writes it.
pub uninterp spec fn otpauth_url_of(secret: Seq<char>, account_name: Seq<char>, issuer: Seq<char>) -> Seq<char>;

/// The six-digit code (RFC 6238 with HMAC-SHA-1, zero-padded decimal) of
/// the secret bytes for a 30-second time step, as `totp-rs` generates it.
pub uninterp spec fn totp_code(secret: Seq<u8>, step: u64) -> Seq<char>;

/// Whether a character belongs to the RFC 4648 base32 alphabet.
pub open spec fn is_base32_char(c: char) -> bool {
    ('A' <= c && c <= 'Z') || ('2' <= c && c <= '7')
}

/// `Secret::generate()` and `Secret::to_base32`: 20 random bytes, in
/// base32 without padding, which is 32 characters of the RFC 4648 alphabet.
#[verifier::external_body]
fn random_base32_secret() -> (s: String)
    ensures
        s@.len() == 32,
        forall|i: int| 0 <= i < s@.len() ==> is_base32_char(#[trigger] s@[i]),
{
    Secret::generate().to_base32()
}

/// `Secret::try_from_base32` followed by `Builder::new()` with that secret,
/// the issuer and the account name, then `build()` (six digits, 30-second
/// steps, one step of skew). It fails when the text is not base32 (with the
/// crate's message for that), when the secret is shorter than 128 bits, or
/// when the issuer or the account name contains `:`. The error is the
/// crate's message.
#[verifier::external_body]
fn build_totp(secret: &str, account_name: &str, issuer: &str) -> (r: Result<Totp, String>)
    ensures
        r is Ok <==> (base32_secret(secret@) matches Some(b) && b.len() >= 16 && !issuer@.contains(':')
            && !account_name@.contains(':')),
        base32_secret(secret@) is None ==> r is Err && r->Err_0@ == "Could not decode base32 secret."@,
{
    let secret = Secret::try_from_base32(secret).map_err(|e| e.to_string())?;
    Builder::new()
        .with_secret(secret)
        .with_issuer(Some(issuer.to_string()))
        .with_account_name(account_name.to_string())
        .build()
        .map_err(|e| e.to_string())
}

/// Whether a text is a six-digit code: exactly six ASCII digits.
pub open spec fn six_digit_code(s: Seq<char>) -> bool {
    s.len() == 6 && forall|i: int| 0 <= i < s.len() ==> '0' <= #[trigger] s[i] && s[i] <= '9'
}

/// `Totp::check_current` on the generator a `TotpCode` holds: the time step
/// a code matches at the current time (the current step or one either
/// side), none when it matches none. Which step matches rests on the clock
/// and is not stated. What is stated holds whatever the time: a `TotpCode`
/// only holds a generator `build_totp` made, with the builder's six digits
/// and SHA-1, and `Totp::check` first reads the code with
/// `Token::try_from_formatted_string`, which refuses any text that is not
/// exactly that many ASCII digits, so such a text never matches. A step is
/// returned only when the code generated for it from the generator's secret
/// (the bytes of its base32 text) equals the code read, so the code given
/// is that step's code.
#[verifier::external_body]
fn check_current_code(gen: &TotpCode, code: &str) -> (r: Option<u64>)
    ensures
        r is Some ==> six_digit_code(code@),
        r is Some ==> (base32_secret(gen.secret_text()) matches Some(b) && totp_code(b, r->Some_0)
            == code@),
{
    gen.totp.check_current(code)
}

/// A code generator for one account, with what it was made from.
pub struct TotpCode {
    totp: Totp,
    secret: String,
    account_name: String,
    issuer: String,
}

impl TotpCode {
    /// A generator is only made for an account name without `:`.
    #[verifier::type_invariant]
    spec fn account_ok(self) -> bool {
        !self.account_name@.contains(':')
    }

    /// The base32 secret it was made from.
    pub closed spec fn secret_text(&self) -> Seq<char> {
        self.secret@
    }

    /// The account name it was made for.
    pub closed spec fn account(&self) -> Seq<char> {
        self.account_name@
    }

    /// The issuer it names.
    pub closed spec fn issuer_name(&self) -> Seq<char> {
        self.issuer@
    }
}

/// `Totp::to_url` on a generator built with this secret, account name and
/// issuer; it succeeds for an account name that is set and has no `:`.
#[verifier::external_body]
fn totp_url(code: &TotpCode) -> (u: String)
    requires
        code.account().len() > 0,
        !code.account().contains(':'),
    ensures
        u@ == otpauth_url_of(code.secret_text(), code.account(), code.issuer_name()),
{
    code.totp.to_url().unwrap_or_default()
}

/// Two-factor codes.
pub struct TotpManager;

/// The step to record when a code that matched `step` is offered, the last
/// recorded step being `last_used`: the code is accepted (and its step
/// recorded) only when it matched and its step is after the last one.
pub open spec fn consumed_step(step: Option<u64>, last_used: Option<i64>) -> Option<i64> {
    match step {
        None => None,
        Some(s) => {
            let s = s as i64;
            match last_used {
                Some(l) => if s <= l {
                    None
                } else {
                    Some(s)
                },
                None => Some(s),
            }
        },
    }
}

impl TotpManager {
    /// A fresh secret: 20 random bytes in base32.
    pub fn generate_secret() -> (s: String)
        ensures
            s@.len() == 32,
            forall|i: int| 0 <= i < s@.len() ==> is_base32_char(#[trigger] s@[i]),
    {
        random_base32_secret()
    }

    /// A code generator for an account from its stored base32 secret;
    /// `Internal` with the crate's message when the secret or the names are
    /// unusable.
    pub fn create_totp(secret: &str, account_name: &str, issuer: &str) -> (r: Result<TotpCode, AppError>)
        ensures
            r is Ok <==> (base32_secret(secret@) matches Some(b) && b.len() >= 16 && !issuer@.contains(':')
                && !account_name@.contains(':')),
            r matches Ok(c) ==> c.secret_text() == secret@ && c.account() == account_name@ && c.issuer_name()
                == issuer@,
            r matches Err(e) ==> e is Internal,
            base32_secret(secret@) is None ==> (r matches Err(AppError::Internal(m)) && m@
                == "Could not decode base32 secret."@),
    {
        match build_totp(secret, account_name, issuer) {
            Ok(totp) => Ok(
                TotpCode {
                    totp,
                    secret: owned(secret),
                    account_name: owned(account_name),
                    issuer: owned(issuer),
                },
            ),
            Err(m) => Err(AppError::Internal(m)),
        }
    }

    /// The time step a code matches now, if any: a step whose code, from
    /// the generator's secret, is the code given. Which steps are tried
    /// rests on the clock (the current one and one either side); a text
    /// that is not six ASCII digits never matches.
    pub fn verify_code(totp: &TotpCode, code: &str) -> (r: Option<u64>)
        ensures
            r is Some ==> six_digit_code(code@),
            r is Some ==> (base32_secret(totp.secret_text()) matches Some(b) && totp_code(b, r->Some_0)
                == code@),
    {
        check_current_code(totp, code)
    }

    /// Decide a code whose match was `step`, given the last step recorded
    /// for the account: the step to record when the code is accepted, none
    /// when it is refused. A code is refused when it did not match, and when
    /// its step is not after the last one accepted, so a code observed by
    /// someone else cannot be replayed within the skew window.
    pub fn consume_step(step: Option<u64>, last_used: Option<i64>) -> (r: Option<i64>)
        ensures
            r == consumed_step(step, last_used),
            r matches Some(s) ==> (last_used matches Some(l) ==> l < s),
    {
        match step {
            None => None,
            Some(s) => {
                #[verifier::truncate]
                let s = s as i64;
                match last_used {
                    Some(l) => if s <= l {
                        None
                    } else {
                        Some(s)
                    },
                    None => Some(s),
                }
            },
        }
    }

    /// The `otpauth://` URL to show as a QR code, for a generator made for a
    /// named account.
    pub fn get_otpauth_url(totp: &TotpCode) -> (u: String)
        requires
            totp.account().len() > 0,
        ensures
            u@ == otpauth_url_of(totp.secret_text(), totp.account(), totp.issuer_name()),
    {
        proof {
            use_type_invariant(totp);
        }
        totp_url(totp)
    }
}

} // verus!
