use nanofile_service::mail::detect::{is_new_browser, is_new_device};
use nanofile_service::mail::i18n::MailStrings;
use nanofile_service::mail::message::{
    escape_html, format_message, format_utc, header_parts, message_id_domain, render, MailContent, MailParams,
};
use nanofile_service::mail::notify::{check_test_send, device_label, drifting_fields, should_notify, with_defaults};
use nanofile_service::mail::queue::{
    backoff_secs, decode_body, encode_body, next_attempt_at, retry_after_failure, DrainReport, MAX_BACKOFF_SECS,
};
use nanofile_service::mail::settings::{is_valid_address, EmailConfig, EmailSettings, TlsMode};
use nanofile_service::mail::transport::{envelope_addresses, transport_plan, TransportTls};
use nanofile_service::mail::MailKind;
use nanofile_service::credential::{SessionRow, SessionSource};
use nanofile_service::error::AppError;

fn strings(lang: &'static str, pairs: &[(&str, &str)]) -> MailStrings {
    MailStrings::new(
        lang,
        pairs.iter().map(|(k, v)| (k.to_string(), v.to_string())).collect(),
    )
}

fn email_config(enabled: bool, host: &str, from_address: &str) -> EmailConfig {
    EmailConfig {
        enabled,
        paused: false,
        host: host.to_string(),
        port: 587,
        tls: "starttls".to_string(),
        username: String::new(),
        password: None,
        from_address: from_address.to_string(),
        from_name: "Nanofile".to_string(),
        timeout_secs: 10,
        max_attempts: 5,
        notify_new_device: true,
        notify_api_key_created: true,
        notify_new_login: true,
    }
}

fn settings() -> EmailSettings {
    EmailSettings {
        enabled: true,
        paused: false,
        host: "smtp.example.com".to_string(),
        port: 587,
        tls: TlsMode::StartTls,
        username: String::new(),
        password: None,
        password_set: false,
        from_address: "nanofile@example.com".to_string(),
        from_name: "Nanofile".to_string(),
        timeout_secs: 10,
        max_attempts: 5,
        notify_new_device: true,
        notify_api_key_created: true,
        notify_new_login: true,
    }
}

#[test]
fn language_falls_back_through_default_to_english() {
    let en = strings("en", &[]);
    let zh = strings("zh", &[]);
    assert_eq!(MailStrings::get(Some("zh-CN"), "en", &en, &zh).lang, "zh");
    assert_eq!(MailStrings::get(Some("zh_tw"), "en", &en, &zh).lang, "zh");
    assert_eq!(MailStrings::get(Some("en"), "zh", &en, &zh).lang, "en");
    assert_eq!(MailStrings::get(None, "zh", &en, &zh).lang, "zh");
    assert_eq!(MailStrings::get(Some("fr"), "zh", &en, &zh).lang, "zh");
    assert_eq!(MailStrings::get(None, "fr", &en, &zh).lang, "en");
}

#[test]
fn missing_keys_render_as_the_key() {
    let en = strings("en", &[("email.brand", "Nanofile")]);
    let zh = strings("zh", &[]);
    assert_eq!(MailStrings::get(None, "en", &en, &zh).tr("email.nope"), "email.nope");
    assert_eq!(MailStrings::get(None, "en", &en, &zh).tr("email.brand"), "Nanofile");
}

#[test]
fn keys_are_listed_once_each_in_order() {
    let en = strings("en", &[("b", "1"), ("a", "2"), ("b", "3")]);
    assert_eq!(en.keys(), vec!["a".to_string(), "b".to_string()]);
}

#[test]
fn placeholders_are_substituted_one_after_the_other() {
    let en = strings("en", &[("greet", "Hi {name}, {name}!")]);
    assert_eq!(en.trf("greet", &[("name", "Ada".to_string())]), "Hi Ada, Ada!");
}

#[test]
fn utc_timestamps_are_labelled() {
    assert_eq!(format_utc(0), "1970-01-01 00:00 UTC");
    assert_eq!(format_utc(1_700_000_000), "2023-11-14 22:13 UTC");
    assert_eq!(format_utc(i64::MAX), "1970-01-01 00:00 UTC");
}

#[test]
fn message_id_domain_comes_from_the_site_url() {
    assert_eq!(message_id_domain("https://files.example.com:8443/base"), "files.example.com");
    assert_eq!(message_id_domain("http://127.0.0.1:8082"), "127.0.0.1");
    assert_eq!(message_id_domain(""), "localhost");
}

#[test]
fn html_escaping_covers_the_five_characters() {
    assert_eq!(escape_html("<a href=\"x\">&'</a>"), "&lt;a href=&quot;x&quot;&gt;&amp;&#39;&lt;/a&gt;");
}

#[test]
fn the_built_message_carries_both_alternatives_and_survives_utf8() {
    let en = strings("en", &[]);
    let zh = strings("zh", &[]);
    let s = MailStrings::get(Some("zh"), "zh", &en, &zh);
    let params = MailParams {
        display_name: Some("Ada".to_string()),
        site_url: Some("https://files.example.com".to_string()),
        time_ts: Some(1_700_000_000),
        ..Default::default()
    };
    let content = render(s, MailKind::NewLogin, &params);
    let raw = format_message(&settings(), "recipient@example.com", &content, "files.example.com")
        .expect("message builds");
    let text = String::from_utf8(raw).expect("raw message is utf-8");
    assert!(text.contains("From: Nanofile <nanofile@example.com>"));
    assert!(text.contains("To: recipient@example.com"));
    assert!(text.contains("multipart/alternative"));
    assert!(text.contains("charset=utf-8"));
    assert!(text.contains("Message-ID: <") && text.contains("@files.example.com>"));
    assert!(text.to_lowercase().contains("date:"));
}

#[test]
fn an_invalid_recipient_is_refused_before_any_smtp_traffic() {
    let content = MailContent {
        subject: "s".to_string(),
        text: "t".to_string(),
        html: "<p>h</p>".to_string(),
    };
    let error = format_message(&settings(), "not-an-address", &content, "localhost")
        .expect_err("an invalid recipient must not be queued");
    assert!(error.as_str().contains("recipient"));
}

#[test]
fn kind_ids_round_trip() {
    for kind in MailKind::ALL {
        assert_eq!(MailKind::from_id(kind.id()), Some(kind));
        assert!(kind.i18n_key().starts_with("admin.email_kind_"));
    }
    assert_eq!(MailKind::from_id("digest"), None);
}

#[test]
fn backoff_grows_then_caps() {
    assert_eq!(backoff_secs(1), 30);
    assert_eq!(backoff_secs(2), 60);
    assert_eq!(backoff_secs(3), 120);
    assert_eq!(backoff_secs(20), MAX_BACKOFF_SECS);
    assert_eq!(backoff_secs(0), 30);
    assert_eq!(backoff_secs(-5), 30);
    assert_eq!(backoff_secs(i32::MAX), MAX_BACKOFF_SECS);
    assert!(backoff_secs(8) > backoff_secs(7));
}

#[test]
fn the_next_attempt_waits_out_the_backoff() {
    assert_eq!(next_attempt_at(1_000, 2), 1_060);
}

#[test]
fn the_body_round_trips_through_base64() {
    let raw = "Subject: 测试\r\n\r\nbody with \u{1F600} and \r\n.\r\n".as_bytes();
    let decoded = decode_body(&encode_body(raw)).unwrap();
    assert_eq!(decoded, raw);
    assert!(decode_body("not base64 !!!").is_none());
}

#[test]
fn tls_ids_round_trip_and_reject_typos() {
    for mode in [TlsMode::StartTls, TlsMode::ImplicitTls, TlsMode::Plaintext] {
        assert_eq!(TlsMode::from_id(mode.id()), Some(mode));
    }
    assert_eq!(TlsMode::from_id("STARTTLS"), Some(TlsMode::StartTls));
    assert_eq!(TlsMode::from_id("ssl"), Some(TlsMode::ImplicitTls));
    assert_eq!(TlsMode::from_id("starttls "), Some(TlsMode::StartTls));
    assert_eq!(TlsMode::from_id("tls1.3"), None);
}

#[test]
fn settings_come_straight_from_the_configuration() {
    let mut config = email_config(true, " smtp.example.com ", "nanofile@example.com");
    config.port = 2525;
    config.tls = "tls".to_string();
    config.username = "bot".to_string();
    config.password = Some("secret".to_string());
    config.timeout_secs = 7;
    config.max_attempts = 3;
    config.notify_new_device = false;
    let settings = EmailSettings::from_config(&config);
    assert_eq!(settings.host, "smtp.example.com");
    assert_eq!(settings.port, 2525);
    assert_eq!(settings.tls, TlsMode::ImplicitTls);
    assert_eq!(settings.password.as_deref(), Some("secret"));
    assert!(settings.password_set);
    assert_eq!(settings.timeout_secs, 7);
    assert_eq!(settings.max_attempts, 3);
    assert!(settings.ready());
}

#[test]
fn settings_are_not_ready_without_host_and_sender() {
    let settings = EmailSettings::from_config(&email_config(true, "", ""));
    assert!(!settings.ready());
    assert_eq!(settings.missing(), vec!["host", "from_address"]);
}

#[test]
fn a_configured_but_disabled_server_is_never_ready() {
    let settings = EmailSettings::from_config(&email_config(false, "smtp.example.com", "nanofile@example.com"));
    assert!(settings.missing().is_empty(), "nothing is missing");
    assert!(!settings.ready(), "the master switch alone decides whether mail exists");
}

#[test]
fn readiness_reports_each_missing_field() {
    let mut settings = EmailSettings::from_config(&email_config(false, "", ""));
    settings.enabled = true;
    settings.host = "smtp.example.com".to_string();
    settings.from_address = "nanofile@example.com".to_string();
    assert!(settings.ready());
    settings.paused = true;
    assert!(!settings.ready());
    assert!(settings.missing().is_empty());
    settings.paused = false;
    settings.from_address = "not an address".to_string();
    assert_eq!(settings.missing(), vec!["from_address"]);
}

#[test]
fn address_validation_rejects_injection_and_accepts_test_domains() {
    assert!(is_valid_address("nanofile@example.com"));
    assert!(is_valid_address("e2e-admin@test.local"));
    assert!(!is_valid_address(""));
    assert!(!is_valid_address("   "));
    assert!(!is_valid_address("no-at-sign"));
    assert!(!is_valid_address("a@b@c.com"));
    assert!(!is_valid_address("victim@example.com\r\nBcc: attacker@example.com"));
    assert!(!is_valid_address("spaces in@example.com"));
}

#[test]
fn notification_switches_gate_each_kind_but_not_the_test_message() {
    let mut settings = EmailSettings::from_config(&email_config(false, "", ""));
    settings.notify_new_login = false;
    assert!(!settings.allows(MailKind::NewLogin));
    assert!(settings.allows(MailKind::PasswordReset));
    assert!(settings.allows(MailKind::NewDevice));
    assert!(settings.allows(MailKind::Test));
}

#[test]
fn the_test_message_reports_why_it_could_not_be_sent() {
    let mut s = settings();
    assert!(check_test_send(&s, "admin@example.com").is_ok());
    assert_eq!(
        check_test_send(&s, "nope"),
        Err(AppError::BadRequest("not a valid email address: nope".to_string()))
    );
    s.host = String::new();
    s.from_address = "x".to_string();
    assert_eq!(
        check_test_send(&s, "admin@example.com"),
        Err(AppError::BadRequest("the email settings are incomplete: host, from_address".to_string()))
    );
    s.paused = true;
    assert_eq!(
        check_test_send(&s, "admin@example.com"),
        Err(AppError::BadRequest("delivery is paused in the email settings".to_string()))
    );
    s.enabled = false;
    assert_eq!(
        check_test_send(&s, "admin@example.com"),
        Err(AppError::BadRequest("email is disabled in config.toml ([email] enabled)".to_string()))
    );
}

#[test]
fn notifications_can_be_switched_off_individually() {
    let mut s = settings();
    assert!(should_notify(&s, MailKind::NewLogin, "owner@example.com"));
    s.notify_new_login = false;
    assert!(!should_notify(&s, MailKind::NewLogin, "owner@example.com"));
    assert!(should_notify(&s, MailKind::NewDevice, "owner@example.com"));
    assert!(!should_notify(&s, MailKind::NewDevice, "not an address"));
    s.enabled = false;
    assert!(!should_notify(&s, MailKind::NewDevice, "owner@example.com"));
}

#[test]
fn a_new_device_is_named_by_what_it_reported() {
    assert_eq!(device_label("Pixel 8", "d1", "android"), "Pixel 8");
    assert_eq!(device_label("  ", "d1", "android"), "d1");
    assert_eq!(device_label("", " ", "android"), "android");
}

#[test]
fn missing_render_parameters_are_filled_in() {
    let p = with_defaults(&MailParams::default(), "https://x.example", 42);
    assert_eq!(p.site_url.as_deref(), Some("https://x.example"));
    assert_eq!(p.time_ts, Some(42));
    let q = with_defaults(&MailParams { time_ts: Some(7), ..Default::default() }, "u", 42);
    assert_eq!(q.time_ts, Some(7));
}

#[test]
fn saved_settings_that_differ_from_the_file_are_named() {
    let a = settings();
    let mut b = settings();
    assert!(drifting_fields(&a, &b).is_empty());
    b.port = 25;
    b.tls = TlsMode::Plaintext;
    b.from_name = "Other".to_string();
    assert_eq!(drifting_fields(&a, &b), vec!["port", "tls", "from_name"]);
}

fn session(source: SessionSource, platform: Option<&str>, device_id: Option<&str>, label: Option<&str>) -> SessionRow {
    SessionRow {
        id: 1,
        source: Some(source),
        client_label: label.map(str::to_string),
        platform: platform.map(str::to_string),
        device_id: device_id.map(str::to_string),
        device_name: None,
        client_version: None,
        created_at: 0,
    }
}

#[test]
fn a_device_is_new_only_the_first_time() {
    let prior = vec![session(SessionSource::Client, Some("android"), Some("d1"), None)];
    assert!(!is_new_device(&prior, "android", "d1"));
    assert!(is_new_device(&prior, "android", "d2"));
    assert!(is_new_device(&prior, "ios", "d1"));
    assert!(is_new_device(&[], "android", "d1"));
}

#[test]
fn an_unidentified_client_is_never_a_new_device() {
    let prior = vec![session(SessionSource::Client, Some("android"), Some("d1"), None)];
    assert!(!is_new_device(&prior, "", "d1"));
    assert!(!is_new_device(&prior, "android", ""));
    assert!(!is_new_device(&prior, "   ", "  "));
}

#[test]
fn a_browser_label_is_new_only_the_first_time() {
    let prior = vec![session(SessionSource::Web, None, None, Some("Firefox · Linux"))];
    assert!(!is_new_browser(&prior, Some("Firefox · Linux")));
    assert!(is_new_browser(&prior, Some("Chrome · Linux")));
    assert!(is_new_browser(&[], Some("Chrome · Linux")));
    assert!(!is_new_browser(&prior, None));
}

#[test]
fn a_client_session_never_makes_a_browser_look_known() {
    let prior = vec![session(SessionSource::Client, Some("linux"), Some("d1"), Some("Chrome · Linux"))];
    assert!(is_new_browser(&prior, Some("Chrome · Linux")));
    let handoff = vec![session(SessionSource::WebClientLogin, None, None, Some("Firefox · Linux"))];
    assert!(!is_new_browser(&handoff, Some("Firefox · Linux")));
}

#[test]
fn a_failed_send_is_retried_until_the_last_attempt() {
    assert_eq!(retry_after_failure(0, 3, 1000), Some(1000 + 30));
    assert_eq!(retry_after_failure(1, 3, 1000), Some(1000 + 60));
    assert_eq!(retry_after_failure(2, 3, 1000), None);
    assert_eq!(retry_after_failure(0, 1, 1000), None);
}

#[test]
fn a_drain_counts_what_each_row_shows() {
    let mut r = DrainReport::default();
    r.record(true, None, 0);
    r.record(false, Some((true, 3)), 2);
    r.record(false, Some((false, 2)), 1);
    r.record(false, Some((false, 1)), 1);
    r.record(false, None, 1);
    assert_eq!((r.delivered, r.failed, r.retried), (1, 1, 1));
    assert_eq!(r.summary(), "1 delivered, 1 retrying, 1 failed, 0 pruned");
}

#[test]
fn a_missing_host_is_refused_rather_than_defaulted() {
    let mut s = settings();
    s.host = "   ".to_string();
    let e = transport_plan(&s, "localhost").unwrap_err();
    assert!(e.as_str().contains("SMTP host"));
}

#[test]
fn the_transport_follows_the_settings() {
    let mut s = settings();
    s.host = "  smtp.example.com ".to_string();
    let p = transport_plan(&s, "files.example.com").unwrap();
    assert_eq!(p.host, "smtp.example.com");
    assert_eq!(p.port, 587);
    assert_eq!(p.hello_name, "files.example.com");
    assert_eq!(p.timeout_secs, 10);
    assert_eq!(p.tls, TransportTls::Required("smtp.example.com".to_string()));
    assert_eq!(p.credentials, None, "no credentials were configured");

    s.tls = TlsMode::ImplicitTls;
    s.username = " mailer ".to_string();
    s.password = Some("pw".to_string());
    let p = transport_plan(&s, "h").unwrap();
    assert_eq!(p.tls, TransportTls::Wrapper("smtp.example.com".to_string()));
    assert_eq!(p.credentials, Some(("mailer".to_string(), "pw".to_string())));

    s.tls = TlsMode::Plaintext;
    s.username = "  ".to_string();
    let p = transport_plan(&s, "h").unwrap();
    assert_eq!(p.tls, TransportTls::Plaintext);
    assert_eq!(p.credentials, None, "a password without a user name is not offered");
}

#[test]
fn bad_addresses_are_refused_before_connecting() {
    assert_eq!(
        envelope_addresses(" nanofile@example.com ", "user@example.com"),
        Ok(("nanofile@example.com".to_string(), "user@example.com".to_string()))
    );
    let e = envelope_addresses("nanofile@example.com", "not-an-address").unwrap_err();
    assert!(e.as_str().starts_with("invalid recipient address: "), "{}", e.as_str());
    let e = envelope_addresses("also-not-an-address", "user@example.com").unwrap_err();
    assert!(e.as_str().starts_with("invalid sender address: "), "{}", e.as_str());
}

#[test]
fn a_message_is_built_from_trimmed_parts() {
    let p = header_parts(" nanofile@example.com ", "  ", " user@example.com", "abc-123", "files.example.com");
    assert_eq!(p.from, "nanofile@example.com");
    assert_eq!(p.to, "user@example.com");
    assert_eq!(p.from_name, None);
    assert_eq!(p.message_id, "<abc-123@files.example.com>");
    let p = header_parts("a@b.c", " Nanofile ", "d@e.f", "u", "h");
    assert_eq!(p.from_name, Some("Nanofile".to_string()));
}

#[test]
fn two_usable_addresses_always_give_a_message() {
    let mut s = settings();
    s.from_address = "  nanofile@example.com ".to_string();
    s.from_name = "".to_string();
    let content = MailContent { subject: "Hi".to_string(), text: "t".to_string(), html: "<p>t</p>".to_string() };
    let raw = format_message(&s, " user@example.com ", &content, "files.example.com").expect("built");
    let text = String::from_utf8_lossy(&raw);
    assert!(text.contains("@files.example.com>"));
    assert!(text.contains("nanofile@example.com"));
}

const KINDS: [MailKind; 5] = [
    MailKind::PasswordReset,
    MailKind::NewDevice,
    MailKind::ApiKeyCreated,
    MailKind::NewLogin,
    MailKind::Test,
];

/// A table shaped like the shipped ones: every kind's three parts, the
/// brand, the footer and both layouts, each using only known placeholders.
fn table(lang: &'static str) -> MailStrings {
    let (hello, reset, device, key, login, test) = if lang == "zh" {
        ("你好", "重置密码", "新设备", "新 API 密钥", "新登录", "测试邮件")
    } else {
        ("Hello", "Reset your password", "New device", "New API key", "New sign-in", "Test message")
    };
    let mut pairs: Vec<(String, String)> = vec![
        ("email.brand".to_string(), "Nanofile".to_string()),
        ("email.footer".to_string(), "Sent by {site_name}".to_string()),
        ("email.layout.text".to_string(), "\n--\n{brand}\n{footer}".to_string()),
        (
            "email.layout.html".to_string(),
            "<!DOCTYPE html><html><body><h1>{brand}</h1>{content}<footer>{footer}</footer></body></html>".to_string(),
        ),
    ];
    let bodies = [
        (MailKind::PasswordReset, reset, "{link} (valid {ttl} days, requested from {ip} at {time})"),
        (MailKind::NewDevice, device, "{device} on {platform} from {ip} at {time}"),
        (MailKind::ApiKeyCreated, key, "key {key_name} at {time}"),
        (MailKind::NewLogin, login, "{browser} from {ip} at {time}"),
        (MailKind::Test, test, "{brand} can send mail from {site_url}"),
    ];
    for (kind, subject, body) in bodies {
        let id = kind.id();
        pairs.push((format!("email.{id}.subject"), format!("{{brand}}: {subject}\r\n")));
        let greeting = if kind == MailKind::Test { String::new() } else { format!("{hello} {{name}}, ") };
        pairs.push((format!("email.{id}.text"), format!("{greeting}{body}")));
        pairs.push((format!("email.{id}.html"), format!("<p>{greeting}{body}</p>")));
    }
    MailStrings::new(lang, pairs)
}

fn full_params() -> MailParams {
    MailParams {
        display_name: Some("Ada".to_string()),
        site_url: Some("https://files.example.com".to_string()),
        link: Some("https://files.example.com/accounts/password/reset/abc/".to_string()),
        ttl_days: Some(3),
        ip: Some("203.0.113.7".to_string()),
        browser: Some("Firefox on Linux".to_string()),
        device: Some("Pixel 8".to_string()),
        platform: Some("android".to_string()),
        key_name: Some("backup script".to_string()),
        time_ts: Some(1_700_000_000),
    }
}

#[test]
fn every_kind_renders_in_both_languages() {
    for lang in ["en", "zh"] {
        let strings = table(lang);
        for kind in KINDS {
            let content = render(&strings, kind, &full_params());
            assert!(!content.subject.is_empty());
            assert!(!content.subject.contains(['\r', '\n']), "a subject must stay one header line");
            assert_eq!(content.subject, content.subject.trim());
            if kind != MailKind::Test {
                assert!(content.text.contains("Ada"), "text greets the recipient");
            }
            for body in [&content.text, &content.html] {
                assert!(!body.contains("{name}") && !body.contains("{time}"), "unsubstituted placeholder left in {body}");
            }
            assert!(content.html.contains("<!DOCTYPE html>"));
            assert!(content.text.contains("Nanofile"));
        }
    }
}

#[test]
fn the_reset_link_reaches_both_alternatives() {
    let strings = table("en");
    let content = render(&strings, MailKind::PasswordReset, &full_params());
    let link = "https://files.example.com/accounts/password/reset/abc/";
    assert!(content.text.contains(link));
    assert!(content.html.contains(link));
    assert!(content.text.contains("3 days"));
    assert!(content.html.contains("203.0.113.7"));
}

#[test]
fn client_supplied_values_are_escaped_in_html_only() {
    let strings = table("en");
    let hostile = MailParams {
        display_name: Some("<script>alert(1)</script>".to_string()),
        device: Some("\"Pixel\" <b>".to_string()),
        key_name: Some("<img src=x onerror=alert(1)>".to_string()),
        ..full_params()
    };
    for kind in [MailKind::NewDevice, MailKind::ApiKeyCreated, MailKind::NewLogin] {
        let content = render(&strings, kind, &hostile);
        assert!(!content.html.contains("<script>"), "html body must escape a hostile display name");
        assert!(!content.html.contains("onerror=alert(1)>"), "html body must escape a hostile key name");
        assert!(content.text.contains("<script>alert(1)</script>"));
    }
}

#[test]
fn missing_optional_values_fall_back_instead_of_printing_nothing() {
    let strings = table("en");
    let content = render(&strings, MailKind::NewLogin, &MailParams::default());
    assert!(content.text.contains("there"), "unnamed recipient");
    assert!(content.text.contains("unknown"), "unknown ip/browser");
    assert!(!content.text.contains('{'), "unsubstituted placeholder left in the text body: {}", content.text);
}
