//! Outbound mail: what a message is for, how it is rendered, the settings
//! that decide whether it can be sent, and the retry schedule of the queue.
use vstd::prelude::*;
pub mod detect;
pub mod i18n;
pub mod message;
pub mod notify;
pub mod queue;
pub mod settings;
pub mod transport;

use crate::error::AppError;
use crate::text::str_eq;

verus! {

/// What a message is for. The persisted form is [`MailKind::id`].
#[derive(Clone, Copy, Debug, PartialEq, Eq, Structural)]
pub enum MailKind {
    /// The password-reset link itself.
    PasswordReset,
    /// A client device signed in for the first time.
    NewDevice,
    /// An API key was created.
    ApiKeyCreated,
    /// A browser signed in from a fingerprint the account had not used.
    NewLogin,
    /// The administrator's own probe.
    Test,
}

/// The persisted identifier of a kind.
pub open spec fn mail_kind_id(k: MailKind) -> Seq<char> {
    match k {
        MailKind::PasswordReset => "password_reset"@,
        MailKind::NewDevice => "new_device"@,
        MailKind::ApiKeyCreated => "api_key_created"@,
        MailKind::NewLogin => "new_login"@,
        MailKind::Test => "test"@,
    }
}

/// The admin page's locale key of a kind.
pub open spec fn mail_kind_i18n_key(k: MailKind) -> Seq<char> {
    match k {
        MailKind::PasswordReset => "admin.email_kind_password_reset"@,
        MailKind::NewDevice => "admin.email_kind_new_device"@,
        MailKind::ApiKeyCreated => "admin.email_kind_api_key_created"@,
        MailKind::NewLogin => "admin.email_kind_new_login"@,
        MailKind::Test => "admin.email_kind_test"@,
    }
}

impl MailKind {
    /// Every kind, in the order the admin page lists them.
    pub const ALL: [MailKind; 5] = [
        MailKind::PasswordReset,
        MailKind::NewDevice,
        MailKind::ApiKeyCreated,
        MailKind::NewLogin,
        MailKind::Test,
    ];

    /// Stable identifier, persisted in `email_messages.kind`.
    pub fn id(self) -> (s: &'static str)
        ensures
            s@ == mail_kind_id(self),
    {
        match self {
            MailKind::PasswordReset => "password_reset",
            MailKind::NewDevice => "new_device",
            MailKind::ApiKeyCreated => "api_key_created",
            MailKind::NewLogin => "new_login",
            MailKind::Test => "test",
        }
    }

    /// Parse a persisted identifier: the first kind whose id it is.
    pub fn from_id(value: &str) -> (r: Option<MailKind>)
        ensures
            match r {
                Some(k) => value@ == mail_kind_id(k),
                None => forall|k: MailKind| value@ != mail_kind_id(k),
            },
    {
        if str_eq(value, MailKind::PasswordReset.id()) {
            Some(MailKind::PasswordReset)
        } else if str_eq(value, MailKind::NewDevice.id()) {
            Some(MailKind::NewDevice)
        } else if str_eq(value, MailKind::ApiKeyCreated.id()) {
            Some(MailKind::ApiKeyCreated)
        } else if str_eq(value, MailKind::NewLogin.id()) {
            Some(MailKind::NewLogin)
        } else if str_eq(value, MailKind::Test.id()) {
            Some(MailKind::Test)
        } else {
            proof {
                assert forall|k: MailKind| value@ != mail_kind_id(k) by {
                    match k {
                        MailKind::PasswordReset => {},
                        MailKind::NewDevice => {},
                        MailKind::ApiKeyCreated => {},
                        MailKind::NewLogin => {},
                        MailKind::Test => {},
                    }
                }
            }
            None
        }
    }

    /// The locale key for the admin page's row labels.
    pub fn i18n_key(self) -> (s: &'static str)
        ensures
            s@ == mail_kind_i18n_key(self),
    {
        match self {
            MailKind::PasswordReset => "admin.email_kind_password_reset",
            MailKind::NewDevice => "admin.email_kind_new_device",
            MailKind::ApiKeyCreated => "admin.email_kind_api_key_created",
            MailKind::NewLogin => "admin.email_kind_new_login",
            MailKind::Test => "admin.email_kind_test",
        }
    }
}

/// The identifiers of the kinds are pairwise distinct, so parsing a kind's
/// identifier gives the kind back.
pub proof fn mail_kind_ids_distinct(a: MailKind, b: MailKind)
    ensures
        mail_kind_id(a) == mail_kind_id(b) ==> a == b,
{
    reveal_strlit("password_reset");
    reveal_strlit("new_device");
    reveal_strlit("api_key_created");
    reveal_strlit("new_login");
    reveal_strlit("test");
    if mail_kind_id(a) == mail_kind_id(b) && a != b {
        let x = mail_kind_id(a);
        let y = mail_kind_id(b);
        assert(x.len() == y.len());
        assert(x[0] == y[0]);
        assert(x[4] == y[4]);
    }
}

/// A reason a message could not be delivered, as the text the queue row and
/// the log record.
#[derive(Debug, Clone, PartialEq, Eq)]
pub struct MailError(pub String);

impl MailError {
    /// A failure with the given reason.
    pub fn new(message: String) -> (e: MailError)
        ensures
            e.0 == message,
    {
        MailError(message)
    }

    /// The reason.
    pub fn as_str(&self) -> (s: &str)
        ensures
            s@ == self.0@,
    {
        self.0.as_str()
    }

    /// The error reported when a failure reaches an administrator.
    pub fn into_app_error(self) -> (e: AppError)
        ensures
            e == AppError::Internal(self.0),
    {
        AppError::Internal(self.0)
    }
}

} // verus!
