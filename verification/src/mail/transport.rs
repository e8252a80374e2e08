//! What the SMTP transport is built from: the host, the protection of the
//! connection and the login, decided from one snapshot of the settings; and
//! the envelope of a delivery, taken from the sender and the recipient
//! rather than from the message headers. Opening the connection and talking
//! SMTP is the caller's work.

use vstd::prelude::*;
use super::MailError;
use super::settings::{EmailSettings, TlsMode, lettre_address_ok, parse_address};
use crate::text::{owned, push_str, string_of, trim, trimmed_chars};

verus! {

/// How the connection is protected. Certificates are always checked
/// against the configured host, which both protected variants carry.
#[derive(Clone, Debug, PartialEq, Eq)]
pub enum TransportTls {
    /// In the clear.
    Plaintext,
    /// Upgraded with `STARTTLS`, which the server must offer.
    Required(String),
    /// TLS from the first byte.
    Wrapper(String),
}

/// Everything a transport is built from.
#[derive(Clone, Debug, PartialEq, Eq)]
pub struct TransportPlan {
    /// The relay's host name, trimmed.
    pub host: String,
    pub port: u16,
    /// The domain announced in `EHLO`.
    pub hello_name: String,
    /// The bound on the socket, and on a whole delivery.
    pub timeout_secs: u64,
    pub tls: TransportTls,
    /// The login and password, offered with `PLAIN` then `LOGIN`; none when
    /// no user name or no password is configured.
    pub credentials: Option<(String, String)>,
}

/// Whether a plan is the one these settings give: the trimmed host, the
/// configured port, timeout and protection, the announced name, and the
/// trimmed user name with the password when both are there.
pub open spec fn plan_of(p: TransportPlan, s: EmailSettings, hello_name: Seq<char>) -> bool {
    let host = trim(s.host@);
    &&& p.host@ == host
    &&& p.port == s.port
    &&& p.hello_name@ == hello_name
    &&& p.timeout_secs == s.timeout_secs
    &&& match s.tls {
        TlsMode::Plaintext => p.tls == TransportTls::Plaintext,
        TlsMode::StartTls => p.tls matches TransportTls::Required(h) && h@ == host,
        TlsMode::ImplicitTls => p.tls matches TransportTls::Wrapper(h) && h@ == host,
    }
    &&& if trim(s.username@).len() > 0 && s.password is Some {
        p.credentials matches Some(c) && c.0@ == trim(s.username@) && c.1@ == s.password->Some_0@
    } else {
        p.credentials is None
    }
}

/// Decide how to reach the relay. A blank host is refused rather than
/// defaulted.
pub fn transport_plan(settings: &EmailSettings, hello_name: &str) -> (r: Result<TransportPlan, MailError>)
    ensures
        trim(settings.host@).len() == 0 <==> r is Err,
        r is Err ==> r->Err_0.0@ == "no SMTP host is configured"@,
        r is Ok ==> plan_of(r->Ok_0, *settings, hello_name@),
{
    let host_chars = trimmed_chars(settings.host.as_str());
    if host_chars.len() == 0 {
        return Err(MailError::new(owned("no SMTP host is configured")));
    }
    let host = string_of(host_chars.as_slice());
    let tls = match settings.tls {
        TlsMode::Plaintext => TransportTls::Plaintext,
        TlsMode::StartTls => TransportTls::Required(string_of(host_chars.as_slice())),
        TlsMode::ImplicitTls => TransportTls::Wrapper(string_of(host_chars.as_slice())),
    };
    let user = trimmed_chars(settings.username.as_str());
    let credentials = match &settings.password {
        Some(pw) => if user.len() > 0 {
            Some((string_of(user.as_slice()), owned(pw.as_str())))
        } else {
            None
        },
        None => None,
    };
    Ok(TransportPlan {
        host,
        port: settings.port,
        hello_name: owned(hello_name),
        timeout_secs: settings.timeout_secs,
        tls,
        credentials,
    })
}

/// The sender and recipient of one delivery, each trimmed and accepted by
/// the address parser; the reason for the first one refused otherwise. A
/// header injected into a body cannot add recipients: only these two
/// addresses make the envelope.
pub fn envelope_addresses(from: &str, to: &str) -> (r: Result<(String, String), MailError>)
    ensures
        match r {
            Ok((f, t)) => lettre_address_ok(trim(from@)) && lettre_address_ok(trim(to@)) && f@ == trim(
                from@,
            ) && t@ == trim(to@),
            Err(e) => if !lettre_address_ok(trim(from@)) {
                e.0@.len() >= 24 && e.0@.subrange(0, 24) == "invalid sender address: "@
            } else {
                !lettre_address_ok(trim(to@)) && e.0@.len() >= 27 && e.0@.subrange(0, 27)
                    == "invalid recipient address: "@
            },
        },
{
    let f = string_of(trimmed_chars(from).as_slice());
    let t = string_of(trimmed_chars(to).as_slice());
    match parse_address(f.as_str()) {
        Ok(()) => {},
        Err(reason) => {
            let mut m = owned("invalid sender address: ");
            push_str(&mut m, reason.as_str());
            proof {
                reveal_strlit("invalid sender address: ");
                assert(m@.subrange(0, 24) =~= "invalid sender address: "@);
            }
            return Err(MailError::new(m));
        },
    }
    match parse_address(t.as_str()) {
        Ok(()) => {},
        Err(reason) => {
            let mut m = owned("invalid recipient address: ");
            push_str(&mut m, reason.as_str());
            proof {
                reveal_strlit("invalid recipient address: ");
                assert(m@.subrange(0, 27) =~= "invalid recipient address: "@);
            }
            return Err(MailError::new(m));
        },
    }
    Ok((f, t))
}

} // verus!
