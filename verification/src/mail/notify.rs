//! The decisions the mail subsystem makes before anything is rendered or
//! queued: whether a notification goes out at all, whether the test
//! message may be sent, what a new device is called, and how the saved
//! settings differ from the configuration file.

use vstd::prelude::*;
use super::MailKind;
use super::message::MailParams;
use super::settings::{EmailSettings, allows_spec, is_valid_address, missing_spec, tls_id, valid_address_spec};
use crate::error::{AppError, bad_request, is_bad_request};
use crate::text::{copy_opt_string, owned, push_str, str_eq, trim, trimmed_chars};

verus! {

/// `parts` joined by `, `.
pub open spec fn join_comma(parts: Seq<Seq<char>>) -> Seq<char>
    decreases parts.len(),
{
    if parts.len() == 0 {
        Seq::empty()
    } else if parts.len() == 1 {
        parts[0]
    } else {
        join_comma(parts.drop_last()) + ", "@ + parts.last()
    }
}

fn join_comma_exec(parts: &[&'static str]) -> (s: String)
    ensures
        s@ == join_comma(parts@.map_values(|p: &'static str| p@)),
{
    let ghost pv = parts@.map_values(|p: &'static str| p@);
    let mut s = String::new();
    let mut i: usize = 0;
    proof {
        assert(pv.take(0) =~= Seq::<Seq<char>>::empty());
    }
    while i < parts.len()
        invariant
            i <= parts@.len(),
            pv == parts@.map_values(|p: &'static str| p@),
            s@ == join_comma(pv.take(i as int)),
        decreases parts@.len() - i,
    {
        if i > 0 {
            push_str(&mut s, ", ");
        }
        push_str(&mut s, parts[i]);
        proof {
            let t = pv.take(i + 1);
            assert(t.drop_last() =~= pv.take(i as int));
            assert(t.last() == parts@[i as int]@);
            if i == 0 {
                assert(pv.take(0) =~= Seq::<Seq<char>>::empty());
                assert(s@ =~= join_comma(t));
            } else {
                assert(s@ =~= join_comma(t));
            }
        }
        i = i + 1;
    }
    proof {
        assert(pv.take(i as int) =~= pv);
    }
    s
}

/// Whether a notification of `kind` to `to` is queued: the subsystem is
/// ready, the kind switched on, and the address usable.
pub open spec fn should_notify_spec(s: EmailSettings, kind: MailKind, to: Seq<char>) -> bool {
    &&& s.enabled && !s.paused && missing_spec(s).len() == 0
    &&& allows_spec(s, kind)
    &&& valid_address_spec(to)
}

/// Whether to queue a notification; the cheapest checks come first, so
/// while mail is off nothing else is looked at.
pub fn should_notify(s: &EmailSettings, kind: MailKind, to: &str) -> (b: bool)
    ensures
        b == should_notify_spec(*s, kind, to@),
{
    if !s.ready() || !s.allows(kind) {
        return false;
    }
    is_valid_address(to)
}

/// Why the test message cannot be sent, checked in this order: mail is
/// switched off, delivery is paused, settings are missing, or the address
/// is unusable.
pub fn check_test_send(s: &EmailSettings, to: &str) -> (r: Result<(), AppError>)
    ensures
        r is Ok <==> (s.enabled && !s.paused && missing_spec(*s).len() == 0 && valid_address_spec(to@)),
        !s.enabled ==> (r matches Err(e) && is_bad_request(e, "email is disabled in config.toml ([email] enabled)"@)),
        s.enabled && s.paused ==> (r matches Err(e) && is_bad_request(e, "delivery is paused in the email settings"@)),
        s.enabled && !s.paused && missing_spec(*s).len() > 0 ==> (r matches Err(e) && is_bad_request(
            e,
            "the email settings are incomplete: "@ + join_comma(missing_spec(*s)),
        )),
        s.enabled && !s.paused && missing_spec(*s).len() == 0 && !valid_address_spec(to@) ==> (r matches Err(
            e,
        ) && is_bad_request(e, "not a valid email address: "@ + to@)),
{
    if !s.enabled {
        return Err(bad_request("email is disabled in config.toml ([email] enabled)"));
    }
    if s.paused {
        return Err(bad_request("delivery is paused in the email settings"));
    }
    let missing = s.missing();
    if missing.len() > 0 {
        let mut msg = owned("the email settings are incomplete: ");
        let joined = join_comma_exec(missing.as_slice());
        push_str(&mut msg, joined.as_str());
        return Err(AppError::BadRequest(msg));
    }
    if !is_valid_address(to) {
        let mut msg = owned("not a valid email address: ");
        push_str(&mut msg, to);
        return Err(AppError::BadRequest(msg));
    }
    Ok(())
}

/// What a new device is called in its notification: the name the client
/// reported, else its identifier, else its platform.
pub open spec fn device_label_spec(device_name: Seq<char>, device_id: Seq<char>, platform: Seq<char>) -> Seq<char> {
    if trim(device_name).len() == 0 {
        if trim(device_id).len() == 0 {
            platform
        } else {
            device_id
        }
    } else {
        device_name
    }
}

/// The name a new-device notification shows.
pub fn device_label(device_name: &str, device_id: &str, platform: &str) -> (s: String)
    ensures
        s@ == device_label_spec(device_name@, device_id@, platform@),
{
    if trimmed_chars(device_name).len() == 0 {
        if trimmed_chars(device_id).len() == 0 {
            owned(platform)
        } else {
            owned(device_id)
        }
    } else {
        owned(device_name)
    }
}

/// The parameters a message is rendered with: the site URL and the event
/// time filled in when the caller left them out.
pub fn with_defaults(params: &MailParams, site_url: &str, now: i64) -> (p: MailParams)
    ensures
        p.display_name == params.display_name,
        p.link == params.link,
        p.ttl_days == params.ttl_days,
        p.ip == params.ip,
        p.browser == params.browser,
        p.device == params.device,
        p.platform == params.platform,
        p.key_name == params.key_name,
        match params.site_url {
            Some(u) => p.site_url == Some(u),
            None => p.site_url matches Some(u) && u@ == site_url@,
        },
        p.time_ts == match params.time_ts {
            Some(t) => Some(t),
            None => Some(now),
        },
{
    MailParams {
        display_name: copy_opt_string(&params.display_name),
        site_url: match &params.site_url {
            Some(u) => Some(u.clone()),
            None => Some(owned(site_url)),
        },
        link: copy_opt_string(&params.link),
        ttl_days: params.ttl_days,
        ip: copy_opt_string(&params.ip),
        browser: copy_opt_string(&params.browser),
        device: copy_opt_string(&params.device),
        platform: copy_opt_string(&params.platform),
        key_name: copy_opt_string(&params.key_name),
        time_ts: match params.time_ts {
            Some(t) => Some(t),
            None => Some(now),
        },
    }
}

/// The fields whose saved value differs from the configuration file's, in
/// a fixed order.
pub open spec fn drifting_spec(config: EmailSettings, saved: EmailSettings) -> Seq<Seq<char>> {
    (if config.host@ != saved.host@ { seq!["host"@] } else { Seq::empty() })
        + (if config.port != saved.port { seq!["port"@] } else { Seq::empty() })
        + (if tls_id(config.tls) != tls_id(saved.tls) { seq!["tls"@] } else { Seq::empty() })
        + (if config.username@ != saved.username@ { seq!["username"@] } else { Seq::empty() })
        + (if config.from_address@ != saved.from_address@ { seq!["from_address"@] } else { Seq::empty() })
        + (if config.from_name@ != saved.from_name@ { seq!["from_name"@] } else { Seq::empty() })
}

/// Which saved settings differ from the configuration file; once settings
/// are saved, the file's values no longer apply.
pub fn drifting_fields(config: &EmailSettings, saved: &EmailSettings) -> (d: Vec<&'static str>)
    ensures
        d@.map_values(|s: &'static str| s@) == drifting_spec(*config, *saved),
{
    let mut d: Vec<&'static str> = Vec::new();
    if !str_eq(config.host.as_str(), saved.host.as_str()) {
        d.push("host");
    }
    if config.port != saved.port {
        d.push("port");
    }
    if !str_eq(config.tls.id(), saved.tls.id()) {
        d.push("tls");
    }
    if !str_eq(config.username.as_str(), saved.username.as_str()) {
        d.push("username");
    }
    if !str_eq(config.from_address.as_str(), saved.from_address.as_str()) {
        d.push("from_address");
    }
    if !str_eq(config.from_name.as_str(), saved.from_name.as_str()) {
        d.push("from_name");
    }
    proof {
        assert(d@.map_values(|s: &'static str| s@) =~= drifting_spec(*config, *saved));
    }
    d
}

/// What the startup log says while mail is switched off: whether password
/// reset is on without mail (it then sends nothing), and whether a server
/// is configured that the switch keeps inert.
pub fn switched_off_warnings(reset_enabled: bool, host: &str, from_address: &str) -> (w: (bool, bool))
    ensures
        w.0 == reset_enabled,
        w.1 == (trim(host@).len() > 0 || trim(from_address@).len() > 0),
{
    (reset_enabled, trimmed_chars(host).len() > 0 || trimmed_chars(from_address).len() > 0)
}

} // verus!
