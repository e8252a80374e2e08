//! Effective outbound-mail settings.
//!
//! The layered configuration is the one source of truth: `[email]` seeds
//! these values and the mailer reads a snapshot of them.

use vstd::prelude::*;
use super::MailKind;
use crate::text::{
    ascii_lower_seq, ascii_lower_vec, chars_eq, chars_of, string_of, trim, trimmed_chars,
};

verus! {

/// How the SMTP connection is protected.
#[derive(Clone, Copy, Debug, PartialEq, Eq, Structural)]
pub enum TlsMode {
    /// Connect in the clear, then upgrade with `STARTTLS`.
    StartTls,
    /// TLS from the first byte (implicit TLS, usually port 465).
    ImplicitTls,
    /// No encryption at all.
    Plaintext,
}

/// The persisted identifier of a TLS mode.
pub open spec fn tls_id(m: TlsMode) -> Seq<char> {
    match m {
        TlsMode::StartTls => "starttls"@,
        TlsMode::ImplicitTls => "tls"@,
        TlsMode::Plaintext => "none"@,
    }
}

/// What a configured TLS value reads as, after trimming and lowering.
pub open spec fn tls_from_spec(value: Seq<char>) -> Option<TlsMode> {
    let v = ascii_lower_seq(trim(value));
    if v == "starttls"@ {
        Some(TlsMode::StartTls)
    } else if v == "tls"@ || v == "ssl"@ || v == "smtps"@ {
        Some(TlsMode::ImplicitTls)
    } else if v == "none"@ || v == "plain"@ || v == "insecure"@ {
        Some(TlsMode::Plaintext)
    } else {
        None
    }
}

/// Each TLS mode is read from its own names only: `starttls` is
/// `StartTls`, exactly `tls`, `ssl` and `smtps` are `ImplicitTls`, and any
/// other text is no mode at all (trimmed, in any ASCII case).
pub proof fn tls_names_read_as_their_mode(value: Seq<char>)
    ensures
        ({
            let v = ascii_lower_seq(trim(value));
            &&& (tls_from_spec(value) == Some(TlsMode::StartTls) <==> v == "starttls"@)
            &&& (tls_from_spec(value) == Some(TlsMode::ImplicitTls) <==> (v == "tls"@ || v == "ssl"@ || v
                == "smtps"@))
            &&& (tls_from_spec(value) is None <==> !(v == "starttls"@ || v == "tls"@ || v == "ssl"@ || v
                == "smtps"@ || v == "none"@ || v == "plain"@ || v == "insecure"@))
        }),
{
    reveal_strlit("starttls");
    reveal_strlit("tls");
    reveal_strlit("ssl");
    reveal_strlit("smtps");
    reveal_strlit("none");
    reveal_strlit("plain");
    reveal_strlit("insecure");
    let v = ascii_lower_seq(trim(value));
    if v == "tls"@ || v == "ssl"@ || v == "smtps"@ {
        assert(v != "starttls"@) by {
            if v == "tls"@ {
                assert(v.len() == 3);
            } else if v == "ssl"@ {
                assert(v.len() == 3);
            } else {
                assert(v.len() == 5);
            }
        }
    }
    if v == "none"@ || v == "plain"@ || v == "insecure"@ {
        assert(v != "starttls"@ && v != "tls"@ && v != "ssl"@ && v != "smtps"@) by {
            if v == "none"@ {
                assert(v[0] == 'n');
            } else if v == "plain"@ {
                assert(v[0] == 'p');
            } else {
                assert(v[0] == 'i');
            }
        }
    }
}

/// A typo never parses to a plaintext mode: a value reads as `Plaintext`
/// exactly when, trimmed and lowered, it is `none`, `plain` or `insecure`.
pub proof fn only_plaintext_names_disable_tls(value: Seq<char>)
    ensures
        ({
            let v = ascii_lower_seq(trim(value));
            tls_from_spec(value) == Some(TlsMode::Plaintext) <==> (v == "none"@ || v == "plain"@ || v
                == "insecure"@)
        }),
{
    reveal_strlit("starttls");
    reveal_strlit("tls");
    reveal_strlit("ssl");
    reveal_strlit("smtps");
    reveal_strlit("none");
    reveal_strlit("plain");
    reveal_strlit("insecure");
    let v = ascii_lower_seq(trim(value));
    if v == "none"@ || v == "plain"@ || v == "insecure"@ {
        assert(v != "starttls"@ && v != "tls"@ && v != "ssl"@ && v != "smtps"@) by {
            if v == "none"@ {
                assert(v.len() == 4);
                assert(v[0] == 'n');
            } else if v == "plain"@ {
                assert(v.len() == 5);
                assert(v[0] == 'p');
            } else {
                assert(v.len() == 8);
                assert(v[0] == 'i');
            }
        }
    }
}

impl TlsMode {
    /// Persisted identifier, also the `<select>` value in the admin UI.
    pub fn id(self) -> (s: &'static str)
        ensures
            s@ == tls_id(self),
    {
        match self {
            TlsMode::StartTls => "starttls",
            TlsMode::ImplicitTls => "tls",
            TlsMode::Plaintext => "none",
        }
    }

    /// Parse a persisted or configured value, ignoring surrounding space and
    /// ASCII case. Anything else is `None`, so a typo cannot silently disable
    /// encryption.
    pub fn from_id(value: &str) -> (r: Option<TlsMode>)
        ensures
            r == tls_from_spec(value@),
            r == Some(TlsMode::StartTls) <==> ascii_lower_seq(trim(value@)) == "starttls"@,
            r == Some(TlsMode::ImplicitTls) <==> (ascii_lower_seq(trim(value@)) == "tls"@ || ascii_lower_seq(
                trim(value@),
            ) == "ssl"@ || ascii_lower_seq(trim(value@)) == "smtps"@),
            r == Some(TlsMode::Plaintext) <==> (ascii_lower_seq(trim(value@)) == "none"@ || ascii_lower_seq(
                trim(value@),
            ) == "plain"@ || ascii_lower_seq(trim(value@)) == "insecure"@),
    {
        proof {
            tls_names_read_as_their_mode(value@);
            only_plaintext_names_disable_tls(value@);
        }
        let t = trimmed_chars(value);
        let v = ascii_lower_vec(t.as_slice());
        let is = |lit: &str| -> (b: bool)
            ensures
                b == (v@ == lit@),
            {
                let l = chars_of(lit);
                chars_eq(v.as_slice(), l.as_slice())
            };
        if is("starttls") {
            Some(TlsMode::StartTls)
        } else if is("tls") || is("ssl") || is("smtps") {
            Some(TlsMode::ImplicitTls)
        } else if is("none") || is("plain") || is("insecure") {
            Some(TlsMode::Plaintext)
        } else {
            None
        }
    }

    /// Whether the mode sends in the clear.
    pub fn is_plaintext(self) -> (b: bool)
        ensures
            b == (self == TlsMode::Plaintext),
    {
        matches!(self, TlsMode::Plaintext)
    }
}

/// The `[email]` section of the configuration, as read from the file and
/// the environment.
#[derive(Clone, Debug)]
pub struct EmailConfig {
    pub enabled: bool,
    pub paused: bool,
    pub host: String,
    pub port: u16,
    pub tls: String,
    pub username: String,
    pub password: Option<String>,
    pub from_address: String,
    pub from_name: String,
    pub timeout_secs: u64,
    pub max_attempts: u32,
    pub notify_new_device: bool,
    pub notify_api_key_created: bool,
    pub notify_new_login: bool,
}

/// The settings actually used to deliver mail.
#[derive(Clone, Debug)]
pub struct EmailSettings {
    /// The master switch.
    pub enabled: bool,
    pub paused: bool,
    pub host: String,
    pub port: u16,
    pub tls: TlsMode,
    pub username: String,
    /// The password, when one is configured and usable.
    pub password: Option<String>,
    /// Whether a password is configured at all.
    pub password_set: bool,
    pub from_address: String,
    pub from_name: String,
    pub timeout_secs: u64,
    pub max_attempts: u32,
    pub notify_new_device: bool,
    pub notify_api_key_created: bool,
    pub notify_new_login: bool,
}

/// Whether `value` can serve as an address: non-empty once trimmed, no line
/// break, and accepted by `lettre`'s address parser (so an address that
/// passes here cannot fail when the message is built, and a newline never
/// becomes a header injection).
pub open spec fn valid_address_spec(value: Seq<char>) -> bool {
    let t = trim(value);
    t.len() > 0 && !t.contains('\r') && !t.contains('\n') && lettre_address_ok(t)
}

/// Whether `lettre::Address::from_str` accepts `s`.
pub uninterp spec fn lettre_address_ok(s: Seq<char>) -> bool;

/// `str::parse::<lettre::Address>()`: `Ok` exactly when `lettre` accepts the
/// address, otherwise the parser's own description of the problem.
#[verifier::external_body]
pub(crate) fn parse_address(s: &str) -> (r: Result<(), String>)
    ensures
        r is Ok == lettre_address_ok(s@),
{
    s.parse::<lettre::Address>().map(|_| ()).map_err(|e| e.to_string())
}

/// Whether `value` is usable as an email address.
pub fn is_valid_address(value: &str) -> (ok: bool)
    ensures
        ok == valid_address_spec(value@),
{
    let t = trimmed_chars(value);
    if t.len() == 0 {
        return false;
    }
    let mut i: usize = 0;
    while i < t.len()
        invariant
            i <= t@.len(),
            t@ == trim(value@),
            forall|j: int| 0 <= j < i ==> t@[j] != '\r' && t@[j] != '\n',
        decreases t@.len() - i,
    {
        if t[i] == '\r' || t[i] == '\n' {
            proof {
                assert(t@.contains(t@[i as int]));
                assert(t@.contains('\r') || t@.contains('\n'));
            }
            return false;
        }
        i = i + 1;
    }
    proof {
        assert(!t@.contains('\r'));
        assert(!t@.contains('\n'));
    }
    let ts = string_of(t.as_slice());
    parse_address(ts.as_str()).is_ok()
}

/// The fields [`EmailSettings::missing`] reports, in order.
pub open spec fn missing_spec(s: EmailSettings) -> Seq<Seq<char>> {
    (if trim(s.host@).len() == 0 { seq!["host"@] } else { Seq::empty() }) + (if s.port == 0 {
        seq!["port"@]
    } else {
        Seq::empty()
    }) + (if !valid_address_spec(s.from_address@) {
        seq!["from_address"@]
    } else {
        Seq::empty()
    })
}

/// Whether a notification kind is switched on; the reset link and the test
/// message are not switchable notifications.
pub open spec fn allows_spec(s: EmailSettings, kind: MailKind) -> bool {
    match kind {
        MailKind::PasswordReset => true,
        MailKind::NewDevice => s.notify_new_device,
        MailKind::ApiKeyCreated => s.notify_api_key_created,
        MailKind::NewLogin => s.notify_new_login,
        MailKind::Test => true,
    }
}

impl EmailSettings {
    /// The settings in force for a configuration snapshot: text fields
    /// trimmed, a blank password absent, an unreadable TLS value read as
    /// STARTTLS (never as plaintext), and the timeout and attempt count at
    /// least one.
    pub fn from_config(email: &EmailConfig) -> (s: EmailSettings)
        ensures
            s.enabled == email.enabled,
            s.paused == email.paused,
            s.host@ == trim(email.host@),
            s.port == email.port,
            s.tls == (match tls_from_spec(email.tls@) {
                Some(m) => m,
                None => TlsMode::StartTls,
            }),
            s.username@ == trim(email.username@),
            match email.password {
                Some(p) => if trim(p@).len() > 0 {
                    s.password matches Some(q) && q@ == trim(p@)
                } else {
                    s.password is None
                },
                None => s.password is None,
            },
            s.password_set == s.password is Some,
            s.from_address@ == trim(email.from_address@),
            s.from_name@ == trim(email.from_name@),
            s.timeout_secs == if email.timeout_secs >= 1 { email.timeout_secs } else { 1 },
            s.max_attempts == if email.max_attempts >= 1 { email.max_attempts } else { 1 },
            s.notify_new_device == email.notify_new_device,
            s.notify_api_key_created == email.notify_api_key_created,
            s.notify_new_login == email.notify_new_login,
    {
        let password = match &email.password {
            Some(p) => {
                let t = trimmed_chars(p.as_str());
                if t.len() > 0 {
                    Some(string_of(t.as_slice()))
                } else {
                    None
                }
            },
            None => None,
        };
        let password_set = password.is_some();
        let tls = match TlsMode::from_id(email.tls.as_str()) {
            Some(m) => m,
            None => TlsMode::StartTls,
        };
        EmailSettings {
            enabled: email.enabled,
            paused: email.paused,
            host: string_of(trimmed_chars(email.host.as_str()).as_slice()),
            port: email.port,
            tls,
            username: string_of(trimmed_chars(email.username.as_str()).as_slice()),
            password_set,
            password,
            from_address: string_of(trimmed_chars(email.from_address.as_str()).as_slice()),
            from_name: string_of(trimmed_chars(email.from_name.as_str()).as_slice()),
            timeout_secs: if email.timeout_secs >= 1 { email.timeout_secs } else { 1 },
            max_attempts: if email.max_attempts >= 1 { email.max_attempts } else { 1 },
            notify_new_device: email.notify_new_device,
            notify_api_key_created: email.notify_api_key_created,
            notify_new_login: email.notify_new_login,
        }
    }

    /// Why delivery is not possible, as the names of the missing or broken
    /// fields; empty means deliverable (once enabled).
    pub fn missing(&self) -> (m: Vec<&'static str>)
        ensures
            m@.map_values(|s: &'static str| s@) == missing_spec(*self),
    {
        let mut m: Vec<&'static str> = Vec::new();
        let host = trimmed_chars(self.host.as_str());
        if host.len() == 0 {
            m.push("host");
        }
        if self.port == 0 {
            m.push("port");
        }
        if !is_valid_address(self.from_address.as_str()) {
            m.push("from_address");
        }
        proof {
            assert(m@.map_values(|s: &'static str| s@) =~= missing_spec(*self));
        }
        m
    }

    /// Whether a message can be delivered right now.
    pub fn ready(&self) -> (b: bool)
        ensures
            b == (self.enabled && !self.paused && missing_spec(*self).len() == 0),
    {
        if !self.enabled || self.paused {
            return false;
        }
        let m = self.missing();
        proof {
            assert(m@.map_values(|s: &'static str| s@).len() == m@.len());
        }
        m.len() == 0
    }

    /// Whether this notification kind is switched on.
    pub fn allows(&self, kind: MailKind) -> (b: bool)
        ensures
            b == allows_spec(*self, kind),
    {
        match kind {
            MailKind::PasswordReset => true,
            MailKind::NewDevice => self.notify_new_device,
            MailKind::ApiKeyCreated => self.notify_api_key_created,
            MailKind::NewLogin => self.notify_new_login,
            MailKind::Test => true,
        }
    }
}

} // verus!
