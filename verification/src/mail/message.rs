//! Rendering one message: subject, plain-text body, HTML body, and the raw
//! RFC 5322 bytes handed to the transport.

use vstd::prelude::*;
use super::i18n::{MailStrings, args_view, substitute, tr_spec};
use super::settings::{EmailSettings, lettre_address_ok, parse_address};
use super::{MailError, MailKind, mail_kind_id};
use crate::split::{lemma_next_sep_bounds, next_sep, next_sep_exec};
use crate::text::{chars_of, occurs_at, occurs_at_exec, owned, push_char, push_signed_decimal, push_str, signed_decimal, slice_range, str_eq, string_of, trim, trim_bounds, trimmed_chars};

verus! {

/// Everything a body may interpolate. One struct for every kind, so the
/// placeholder set is closed.
#[derive(Clone, Debug, Default)]
pub struct MailParams {
    /// Display name of the recipient.
    pub display_name: Option<String>,
    /// Absolute URL of this server, for prose.
    pub site_url: Option<String>,
    /// The one-time password-reset link.
    pub link: Option<String>,
    /// How long the reset link stays valid, in days.
    pub ttl_days: Option<i64>,
    /// Client address the action came from.
    pub ip: Option<String>,
    /// Browser label of the session that was created.
    pub browser: Option<String>,
    /// Device name a client application reported.
    pub device: Option<String>,
    /// Platform a client application reported.
    pub platform: Option<String>,
    /// Name of the API key that was created.
    pub key_name: Option<String>,
    /// Unix seconds of the event.
    pub time_ts: Option<i64>,
}

/// A rendered message, before it is put in an envelope.
#[derive(Clone, Debug, PartialEq, Eq)]
pub struct MailContent {
    pub subject: String,
    pub text: String,
    pub html: String,
}

/// Placeholders a body may use.
pub const PLACEHOLDERS: [&'static str; 11] = [
    "name",
    "brand",
    "site_url",
    "link",
    "ttl",
    "ip",
    "time",
    "browser",
    "device",
    "platform",
    "key_name",
];

/// `chrono`'s `%Y-%m-%d %H:%M` rendering of a Unix time in UTC (the epoch for
/// a time out of its range).
pub uninterp spec fn utc_minute_stamp(ts: i64) -> Seq<char>;

#[verifier::external_body]
fn utc_minute_stamp_text(ts: i64) -> (s: String)
    ensures
        s@ == utc_minute_stamp(ts),
{
    chrono::DateTime::from_timestamp(ts, 0).unwrap_or_default().format("%Y-%m-%d %H:%M").to_string()
}

/// The current Unix time (`chrono::Utc::now`). Nothing is known of it.
#[verifier::external_body]
pub(crate) fn unix_now() -> (t: i64) {
    chrono::Utc::now().timestamp()
}

/// A fresh random UUID, hyphenated (`uuid::Uuid::new_v4`).
#[verifier::external_body]
fn new_uuid() -> (s: String) {
    uuid::Uuid::new_v4().to_string()
}

/// Render a timestamp for a mail body, in UTC and labelled so: mail has no
/// browser to localize it.
pub fn format_utc(ts: i64) -> (s: String)
    ensures
        s@ == utc_minute_stamp(ts) + " UTC"@,
{
    let mut s = utc_minute_stamp_text(ts);
    push_str(&mut s, " UTC");
    s
}

/// The HTML escape of one character.
pub open spec fn escape_char(c: char) -> Seq<char> {
    if c == '&' {
        "&amp;"@
    } else if c == '<' {
        "&lt;"@
    } else if c == '>' {
        "&gt;"@
    } else if c == '"' {
        "&quot;"@
    } else if c == '\'' {
        "&#39;"@
    } else {
        seq![c]
    }
}

/// `s` with `& < > " '` escaped.
pub open spec fn escape_spec(s: Seq<char>) -> Seq<char>
    decreases s.len(),
{
    if s.len() == 0 {
        Seq::empty()
    } else {
        escape_spec(s.drop_last()) + escape_char(s.last())
    }
}

/// Escape a value for interpolation into an HTML body. Values reach the
/// bodies from client-supplied fields, so they are escaped even though the
/// templates themselves are trusted.
pub fn escape_html(value: &str) -> (out: String)
    ensures
        out@ == escape_spec(value@),
{
    let v = chars_of(value);
    let mut out = String::new();
    let mut i: usize = 0;
    while i < v.len()
        invariant
            i <= v@.len(),
            out@ == escape_spec(v@.take(i as int)),
        decreases v@.len() - i,
    {
        let ch = v[i];
        proof {
            assert(v@.take(i + 1).drop_last() =~= v@.take(i as int));
        }
        if ch == '&' {
            push_str(&mut out, "&amp;");
        } else if ch == '<' {
            push_str(&mut out, "&lt;");
        } else if ch == '>' {
            push_str(&mut out, "&gt;");
        } else if ch == '"' {
            push_str(&mut out, "&quot;");
        } else if ch == '\'' {
            push_str(&mut out, "&#39;");
        } else {
            push_char(&mut out, ch);
        }
        i = i + 1;
    }
    proof {
        assert(v@.take(i as int) =~= value@);
    }
    out
}

/// An optional text kept only when it is not blank.
pub open spec fn non_blank(o: Option<String>) -> Option<Seq<char>> {
    match o {
        Some(s) => if trim(s@).len() > 0 { Some(s@) } else { None },
        None => None,
    }
}

/// `o`'s text, or `fallback`.
pub open spec fn or_else(o: Option<Seq<char>>, fallback: Seq<char>) -> Seq<char> {
    match o {
        Some(s) => s,
        None => fallback,
    }
}

/// The text of an optional string, if present.
pub open spec fn text_of(o: Option<String>) -> Option<Seq<char>> {
    match o {
        Some(s) => Some(s@),
        None => None,
    }
}

/// The value interpolated for placeholder `name`. `now` stands in for a
/// missing event time.
pub open spec fn value_spec(params: MailParams, name: Seq<char>, site_url: Seq<char>, now: i64) -> Seq<char> {
    if name == "name"@ {
        or_else(non_blank(params.display_name), "there"@)
    } else if name == "site_url"@ {
        or_else(text_of(params.site_url), site_url)
    } else if name == "link"@ {
        or_else(text_of(params.link), Seq::empty())
    } else if name == "ttl"@ {
        signed_decimal(match params.ttl_days { Some(d) => d as int, None => 0 })
    } else if name == "ip"@ {
        or_else(text_of(params.ip), "unknown"@)
    } else if name == "browser"@ {
        or_else(non_blank(params.browser), "unknown"@)
    } else if name == "device"@ {
        or_else(non_blank(params.device), "unknown"@)
    } else if name == "platform"@ {
        or_else(non_blank(params.platform), "unknown"@)
    } else if name == "key_name"@ {
        or_else(non_blank(params.key_name), "unnamed"@)
    } else if name == "time"@ {
        utc_minute_stamp(match params.time_ts { Some(t) => t, None => now }) + " UTC"@
    } else {
        seq!['{'] + name + seq!['}']
    }
}

fn non_blank_or(o: &Option<String>, fallback: &str) -> (out: String)
    ensures
        out@ == or_else(non_blank(*o), fallback@),
{
    match o {
        Some(s) => {
            let t = trimmed_chars(s.as_str());
            if t.len() > 0 {
                s.clone()
            } else {
                owned(fallback)
            }
        },
        None => owned(fallback),
    }
}

fn text_or(o: &Option<String>, fallback: &str) -> (out: String)
    ensures
        out@ == or_else(text_of(*o), fallback@),
{
    match o {
        Some(s) => s.clone(),
        None => owned(fallback),
    }
}

/// The value for a placeholder; an unknown name renders as itself, braces
/// included, so a typo stays visible.
pub fn value(params: &MailParams, name: &str, site_url: &str, now: i64) -> (out: String)
    ensures
        out@ == value_spec(*params, name@, site_url@, now),
{
    if str_eq(name, "name") {
        non_blank_or(&params.display_name, "there")
    } else if str_eq(name, "site_url") {
        text_or(&params.site_url, site_url)
    } else if str_eq(name, "link") {
        proof {
            reveal_strlit("");
        }
        text_or(&params.link, "")
    } else if str_eq(name, "ttl") {
        let mut s = String::new();
        let d = match params.ttl_days {
            Some(d) => d,
            None => 0,
        };
        push_signed_decimal(&mut s, d);
        s
    } else if str_eq(name, "ip") {
        text_or(&params.ip, "unknown")
    } else if str_eq(name, "browser") {
        non_blank_or(&params.browser, "unknown")
    } else if str_eq(name, "device") {
        non_blank_or(&params.device, "unknown")
    } else if str_eq(name, "platform") {
        non_blank_or(&params.platform, "unknown")
    } else if str_eq(name, "key_name") {
        non_blank_or(&params.key_name, "unnamed")
    } else if str_eq(name, "time") {
        let t = match params.time_ts {
            Some(t) => t,
            None => now,
        };
        format_utc(t)
    } else {
        let mut s = String::new();
        push_char(&mut s, '{');
        push_str(&mut s, name);
        push_char(&mut s, '}');
        proof {
            assert(s@ =~= seq!['{'] + name@ + seq!['}']);
        }
        s
    }
}

} // verus!

verus! {

/// The locale key of one part of a kind's message: `email.<kind>.<part>`.
pub open spec fn part_key(kind: MailKind, part: Seq<char>) -> Seq<char> {
    "email."@ + mail_kind_id(kind) + "."@ + part
}

/// The placeholder arguments, in [`PLACEHOLDERS`] order, each value escaped
/// for HTML when `html` is set.
pub open spec fn placeholder_args(params: MailParams, site_url: Seq<char>, now: i64, html: bool) -> Seq<(Seq<char>, Seq<char>)> {
    PLACEHOLDERS@.map_values(
        |n: &'static str|
            (n@, if html {
                crate::mail::message::escape_spec(value_spec(params, n@, site_url, now))
            } else {
                value_spec(params, n@, site_url, now)
            }),
    )
}

/// Carriage returns and line feeds turned into spaces.
pub open spec fn crlf_to_space(s: Seq<char>) -> Seq<char> {
    Seq::new(s.len(), |i: int| if s[i] == '\r' || s[i] == '\n' { ' ' } else { s[i] })
}

/// What [`render_at`] produces.
pub open spec fn render_spec(
    dict: Seq<(String, String)>,
    kind: MailKind,
    params: MailParams,
    now: i64,
) -> (Seq<char>, Seq<char>, Seq<char>) {
    let site_url = crate::text::opt_text(params.site_url);
    let brand = tr_spec(dict, "email.brand"@);
    let text_args = placeholder_args(params, site_url, now, false).push(("brand"@, brand));
    let html_args = placeholder_args(params, site_url, now, true).push(
        ("brand"@, escape_spec(brand)),
    );
    let footer_text = substitute(tr_spec(dict, "email.footer"@), seq![("site_name"@, brand)]);
    let footer_html = substitute(
        tr_spec(dict, "email.footer"@),
        seq![("site_name"@, escape_spec(brand))],
    );
    let subject = trim(crlf_to_space(substitute(tr_spec(dict, part_key(kind, "subject"@)), text_args)));
    let body_text = substitute(tr_spec(dict, part_key(kind, "text"@)), text_args);
    let body_html = substitute(tr_spec(dict, part_key(kind, "html"@)), html_args);
    let text = body_text + substitute(
        tr_spec(dict, "email.layout.text"@),
        seq![("brand"@, brand), ("footer"@, footer_text)],
    );
    let html = substitute(
        tr_spec(dict, "email.layout.html"@),
        seq![("brand"@, escape_spec(brand)), ("content"@, body_html), ("footer"@, footer_html)],
    );
    (subject, text, html)
}

/// A rendered subject is one clean header line: carriage returns and line
/// feeds from the template or from any interpolated value have become
/// spaces, and it is already trimmed.
pub proof fn a_subject_is_one_trimmed_line(dict: Seq<(String, String)>, kind: MailKind, params: MailParams, now: i64)
    ensures
        ({
            let subject = render_spec(dict, kind, params, now).0;
            &&& !subject.contains('\r')
            &&& !subject.contains('\n')
            &&& trim(subject) == subject
        }),
{
    let (subject, _, _) = render_spec(dict, kind, params, now);
    let site_url = crate::text::opt_text(params.site_url);
    let brand = tr_spec(dict, "email.brand"@);
    let text_args = placeholder_args(params, site_url, now, false).push(("brand"@, brand));
    let flat = crlf_to_space(substitute(tr_spec(dict, part_key(kind, "subject"@)), text_args));
    assert(subject == trim(flat));
    crate::text::lemma_trim_within(flat);
    crate::text::lemma_trim_idempotent(flat);
    assert forall|i: int| 0 <= i < subject.len() implies subject[i] != '\r' && subject[i] != '\n' by {
        assert(flat.contains(subject[i]));
        let j = choose|j: int| 0 <= j < flat.len() && flat[j] == subject[i];
    }
}

fn key_of(kind: MailKind, part: &str) -> (k: String)
    ensures
        k@ == part_key(kind, part@),
{
    let mut k = String::new();
    push_str(&mut k, "email.");
    push_str(&mut k, kind.id());
    push_str(&mut k, ".");
    push_str(&mut k, part);
    proof {
        assert(k@ =~= part_key(kind, part@));
    }
    k
}

fn placeholder_values(params: &MailParams, site_url: &str, now: i64, html: bool) -> (args: Vec<(&'static str, String)>)
    ensures
        args_view(args@) == placeholder_args(*params, site_url@, now, html),
{
    let mut args: Vec<(&'static str, String)> = Vec::new();
    let mut i: usize = 0;
    while i < 11
        invariant
            i <= 11,
            args_view(args@) == placeholder_args(*params, site_url@, now, html).take(i as int),
        decreases 11 - i,
    {
        let name = PLACEHOLDERS[i];
        proof {
            assert(name == PLACEHOLDERS@[i as int]);
            assert(PLACEHOLDERS@.len() == 11);
        }
        let ghost before = args_view(args@);
        let raw = value(params, name, site_url, now);
        let v = if html {
            escape_html(raw.as_str())
        } else {
            raw
        };
        args.push((name, v));
        i = i + 1;
        proof {
            assert(args_view(args@) =~= before.push((name@, v@)));
            assert(placeholder_args(*params, site_url@, now, html)[i - 1] == (name@, v@));
            assert(args_view(args@) =~= placeholder_args(*params, site_url@, now, html).take(i as int));
        }
    }
    proof {
        assert(placeholder_args(*params, site_url@, now, html).take(11) =~= placeholder_args(*params, site_url@, now, html));
    }
    args
}

/// Render the subject and both bodies for one message, with `now` standing
/// in for a missing event time. Bodies interpolate escaped values, the
/// plain-text alternative the raw ones; the subject stays one header line.
pub fn render_at(strings: &MailStrings, kind: MailKind, params: &MailParams, now: i64) -> (c: MailContent)
    ensures
        (c.subject@, c.text@, c.html@) == render_spec(strings.dict@, kind, *params, now),
{
    let site_url = crate::text::opt_string_or_empty(&params.site_url);
    let brand = owned(strings.tr("email.brand"));
    let mut text_args = placeholder_values(params, site_url.as_str(), now, false);
    let mut html_args = placeholder_values(params, site_url.as_str(), now, true);
    let ghost ta = args_view(text_args@);
    let ghost ha = args_view(html_args@);
    text_args.push(("brand", brand.clone()));
    html_args.push(("brand", escape_html(brand.as_str())));
    proof {
        assert(args_view(text_args@) =~= ta.push(("brand"@, brand@)));
        assert(args_view(html_args@) =~= ha.push(("brand"@, escape_spec(brand@))));
    }
    let footer_args_text = [("site_name", brand.clone())];
    let footer_args_html = [("site_name", escape_html(brand.as_str()))];
    let footer_text = strings.trf("email.footer", &footer_args_text);
    let footer_html = strings.trf("email.footer", &footer_args_html);
    proof {
        assert(args_view(footer_args_text@) =~= seq![("site_name"@, brand@)]);
        assert(args_view(footer_args_html@) =~= seq![("site_name"@, escape_spec(brand@))]);
    }
    let subject_key = key_of(kind, "subject");
    let raw_subject = strings.trf(subject_key.as_str(), text_args.as_slice());
    let rs = chars_of(raw_subject.as_str());
    let mut flat: Vec<char> = Vec::new();
    let mut i: usize = 0;
    while i < rs.len()
        invariant
            i <= rs@.len(),
            flat@ == crlf_to_space(rs@).take(i as int),
        decreases rs@.len() - i,
    {
        let c = rs[i];
        if c == '\r' || c == '\n' {
            flat.push(' ');
        } else {
            flat.push(c);
        }
        i = i + 1;
        proof {
            assert(flat@ =~= crlf_to_space(rs@).take(i as int));
        }
    }
    proof {
        assert(crlf_to_space(rs@).take(i as int) =~= crlf_to_space(rs@));
    }
    let (a, b) = trim_bounds(flat.as_slice());
    let subject = string_of(slice_range(flat.as_slice(), a, b).as_slice());
    let text_key = key_of(kind, "text");
    let html_key = key_of(kind, "html");
    let body_text = strings.trf(text_key.as_str(), text_args.as_slice());
    let body_html = strings.trf(html_key.as_str(), html_args.as_slice());
    let layout_text_args = [("brand", brand.clone()), ("footer", footer_text)];
    let layout_html_args = [("brand", escape_html(brand.as_str())), ("content", body_html), ("footer", footer_html)];
    proof {
        assert(args_view(layout_text_args@) =~= seq![("brand"@, brand@), ("footer"@, args_view(layout_text_args@)[1].1)]);
    }
    let mut text = body_text;
    let layout_text = strings.trf("email.layout.text", &layout_text_args);
    push_str(&mut text, layout_text.as_str());
    let html = strings.trf("email.layout.html", &layout_html_args);
    proof {
        assert(args_view(layout_html_args@) =~= seq![
            ("brand"@, escape_spec(brand@)),
            ("content"@, args_view(layout_html_args@)[1].1),
            ("footer"@, args_view(layout_html_args@)[2].1),
        ]);
    }
    MailContent { subject, text, html }
}

/// Render the subject and both bodies for one message, taking the current
/// time for a missing event time.
pub fn render(strings: &MailStrings, kind: MailKind, params: &MailParams) -> (c: MailContent)
    ensures
        exists|now: i64| (c.subject@, c.text@, c.html@) == render_spec(strings.dict@, kind, *params, now),
{
    let now = unix_now();
    render_at(strings, kind, params, now)
}

} // verus!

verus! {

/// The first position at or after `i` where `pat` occurs in `s`.
pub open spec fn find_from(s: Seq<char>, pat: Seq<char>, i: int) -> Option<int>
    decreases s.len() + 1 - i,
{
    if i < 0 || i + pat.len() > s.len() {
        None
    } else if occurs_at(s, pat, i) {
        Some(i)
    } else {
        find_from(s, pat, i + 1)
    }
}

/// The first position at or after `i` holding `/`, `?` or `#`, or the length.
pub open spec fn next_url_delim(s: Seq<char>, i: int) -> int
    decreases s.len() - i,
{
    if i >= s.len() {
        s.len() as int
    } else if s[i] == '/' || s[i] == '?' || s[i] == '#' {
        i
    } else {
        next_url_delim(s, i + 1)
    }
}

/// The part of `s` after its last `c` (all of `s` when there is none), as
/// `s.rsplit(c).next()` gives it.
pub open spec fn after_last(s: Seq<char>, c: char) -> Seq<char>
    decreases s.len(),
{
    if s.len() == 0 {
        s
    } else if s.last() == c {
        Seq::empty()
    } else {
        after_last(s.drop_last(), c).push(s.last())
    }
}

/// The host named by a site URL: the authority after any scheme, without
/// path, query, fragment, user info or port; `localhost` when that is empty.
pub open spec fn message_id_domain_spec(site_url: Seq<char>) -> Seq<char> {
    let t = trim(site_url);
    let rest = match find_from(t, "://"@, 0) {
        Some(i) => t.skip(i + 3),
        None => t,
    };
    let authority = rest.take(next_url_delim(rest, 0));
    let hostport = after_last(authority, '@');
    let host = hostport.take(next_sep(hostport, ':', 0));
    if host.len() == 0 {
        "localhost"@
    } else {
        host
    }
}

/// The first occurrence of `pat` in `s`.
fn find_exec(s: &[char], pat: &[char]) -> (r: Option<usize>)
    ensures
        match r {
            Some(k) => find_from(s@, pat@, 0) == Some(k as int) && k + pat@.len() <= s@.len(),
            None => find_from(s@, pat@, 0) is None,
        },
{
    if pat.len() > s.len() {
        return None;
    }
    let last = s.len() - pat.len();
    let mut i: usize = 0;
    loop
        invariant
            last == s@.len() - pat@.len(),
            i <= last,
            find_from(s@, pat@, 0) == find_from(s@, pat@, i as int),
        decreases last - i,
    {
        if occurs_at_exec(s, pat, i) {
            return Some(i);
        }
        if i == last {
            proof {
                assert(find_from(s@, pat@, i + 1) is None);
            }
            return None;
        }
        i = i + 1;
    }
}

/// The domain used for the generated `Message-ID`, taken from the
/// configured site URL rather than the machine's own name.
pub fn message_id_domain(site_url: &str) -> (d: String)
    ensures
        d@ == message_id_domain_spec(site_url@),
{
    let t = trimmed_chars(site_url);
    let sep = chars_of("://");
    let found = find_exec(t.as_slice(), sep.as_slice());
    let rest = match found {
        Some(k) => {
            let n = t.len();
            let m = sep.len();
            proof {
                assert(k + sep@.len() <= t@.len());
                assert(n == t@.len() && m == sep@.len());
            }
            slice_range(t.as_slice(), k + m, n)
        },
        None => slice_range(t.as_slice(), 0, t.len()),
    };
    proof {
        reveal_strlit("://");
        match found {
            Some(k) => {
                assert(rest@ =~= t@.skip(k + 3));
            },
            None => {
                assert(rest@ =~= t@);
            },
        }
    }
    let mut e: usize = 0;
    while e < rest.len() && !(rest[e] == '/' || rest[e] == '?' || rest[e] == '#')
        invariant
            e <= rest@.len(),
            next_url_delim(rest@, 0) == next_url_delim(rest@, e as int),
        decreases rest@.len() - e,
    {
        e = e + 1;
    }
    let authority = slice_range(rest.as_slice(), 0, e);
    let mut at = authority.len();
    proof {
        assert(authority@.take(at as int) =~= authority@);
        assert(authority@.skip(at as int) =~= Seq::<char>::empty());
        assert(after_last(authority@, '@') + Seq::<char>::empty() =~= after_last(authority@, '@'));
    }
    while at > 0 && authority[at - 1] != '@'
        invariant
            at <= authority@.len(),
            after_last(authority@, '@') == after_last(authority@.take(at as int), '@') + authority@.skip(at as int),
        decreases at,
    {
        proof {
            let p = authority@.take(at as int);
            assert(p.drop_last() =~= authority@.take(at - 1));
            assert(p.last() == authority@[at - 1]);
            assert(authority@.skip(at - 1) =~= seq![authority@[at - 1]] + authority@.skip(at as int));
            assert(after_last(p, '@') == after_last(p.drop_last(), '@').push(p.last()));
            assert(after_last(p.drop_last(), '@').push(p.last()) + authority@.skip(at as int) =~= after_last(p.drop_last(), '@') + authority@.skip(at - 1));
        }
        at = at - 1;
    }
    proof {
        if at > 0 {
            let p = authority@.take(at as int);
            assert(p.last() == '@');
            assert(after_last(p, '@') =~= Seq::<char>::empty());
        } else {
            assert(authority@.take(0) =~= Seq::<char>::empty());
        }
        assert(authority@.skip(at as int) =~= after_last(authority@, '@'));
    }
    let hostport = slice_range(authority.as_slice(), at, authority.len());
    let colon = next_sep_exec(hostport.as_slice(), ':', 0);
    proof {
        lemma_next_sep_bounds(hostport@, ':', 0);
    }
    let host = slice_range(hostport.as_slice(), 0, colon);
    proof {
        assert(host@ =~= hostport@.take(next_sep(hostport@, ':', 0)));
    }
    if host.len() == 0 {
        owned("localhost")
    } else {
        string_of(host.as_slice())
    }
}

/// Build the raw message with `lettre`: a `multipart/alternative` of the
/// two bodies, with a `Date` of now and the given `Message-ID`. Given two
/// addresses `lettre` accepts, it succeeds: both parse again, and
/// `MessageBuilder::build` fails only when `From` is missing or repeated
/// without a `Sender`, or when no envelope can be formed from the headers,
/// and here there is exactly one `From` and one `To`. The bytes carry the
/// current time and are not stated. A display name holding a carriage
/// return or a line feed cannot be written into the `From` header: the
/// quoted-string writer refuses it and the header's `to_string` panics, so
/// such a name is left out by `requires`.
#[verifier::external_body]
fn build_message(
    from_name: Option<String>,
    from: &str,
    to: &str,
    content: &MailContent,
    message_id: String,
) -> (r: Result<Vec<u8>, String>)
    requires
        lettre_address_ok(from@),
        lettre_address_ok(to@),
        from_name matches Some(n) ==> !n@.contains('\r') && !n@.contains('\n'),
    ensures
        r is Ok,
{
    let from_addr: lettre::Address = from.parse().map_err(|e: lettre::address::AddressError| e.to_string())?;
    let to_addr: lettre::Address = to.parse().map_err(|e: lettre::address::AddressError| e.to_string())?;
    lettre::Message::builder()
        .from(lettre::message::Mailbox::new(from_name, from_addr))
        .to(lettre::message::Mailbox::new(None, to_addr))
        .subject(content.subject.clone())
        .date_now()
        .message_id(Some(message_id))
        .multipart(lettre::message::MultiPart::alternative_plain_html(content.text.clone(), content.html.clone()))
        .map(|m| m.formatted())
        .map_err(|e| e.to_string())
}

/// What a message's headers are made from.
#[derive(Debug, Clone, PartialEq, Eq)]
pub struct HeaderParts {
    /// The sender's display name; none when the configured name is blank.
    pub from_name: Option<String>,
    /// The sender's address, trimmed.
    pub from: String,
    /// The recipient's address, trimmed.
    pub to: String,
    /// `<uuid@domain>`.
    pub message_id: String,
}

/// The `Message-ID` of a message: `<`, the id, `@`, the domain, `>`.
pub open spec fn message_id_spec(uuid: Seq<char>, domain: Seq<char>) -> Seq<char> {
    seq!['<'] + uuid + seq!['@'] + domain + seq!['>']
}

/// The header parts of a message: the trimmed addresses, the trimmed
/// display name when it is not blank, and the `Message-ID` made of `uuid`
/// and the domain.
pub fn header_parts(from_address: &str, from_name: &str, to: &str, uuid: &str, domain: &str) -> (p: HeaderParts)
    ensures
        p.from@ == trim(from_address@),
        p.to@ == trim(to@),
        p.from_name is None <==> trim(from_name@).len() == 0,
        p.from_name matches Some(n) ==> n@ == trim(from_name@),
        p.message_id@ == message_id_spec(uuid@, domain@),
{
    let from = string_of(trimmed_chars(from_address).as_slice());
    let to_address = string_of(trimmed_chars(to).as_slice());
    let name_chars = trimmed_chars(from_name);
    let name = if name_chars.len() == 0 {
        None
    } else {
        Some(string_of(name_chars.as_slice()))
    };
    let mut message_id = owned("<");
    push_str(&mut message_id, uuid);
    push_str(&mut message_id, "@");
    push_str(&mut message_id, domain);
    push_str(&mut message_id, ">");
    proof {
        reveal_strlit("<");
        reveal_strlit("@");
        reveal_strlit(">");
        assert(message_id@ =~= message_id_spec(uuid@, domain@));
    }
    HeaderParts { from_name: name, from, to: to_address, message_id }
}

/// Build the raw RFC 5322 message handed to the SMTP transport. Both
/// addresses are checked (trimmed) before anything is assembled, the sender
/// first; with two usable addresses the message is built, from the parts
/// `header_parts` gives for a fresh UUID and `message_id_domain`. A sender
/// name with a line break inside cannot be written into a header (the
/// message builder panics on it), so the configured name, trimmed, must not
/// hold one.
pub fn format_message(
    settings: &EmailSettings,
    to: &str,
    content: &MailContent,
    message_id_domain: &str,
) -> (r: Result<Vec<u8>, MailError>)
    requires
        !trim(settings.from_name@).contains('\r'),
        !trim(settings.from_name@).contains('\n'),
    ensures
        lettre_address_ok(trim(settings.from_address@)) && lettre_address_ok(trim(to@)) ==> r is Ok,
        !lettre_address_ok(trim(settings.from_address@)) ==> (r matches Err(e) && e.0@.len() >= 24
            && e.0@.take(24) == "invalid sender address: "@),
        lettre_address_ok(trim(settings.from_address@)) && !lettre_address_ok(trim(to@)) ==> (r matches Err(e)
            && e.0@.len() >= 27 && e.0@.take(27) == "invalid recipient address: "@),
{
    proof {
        reveal_strlit("invalid sender address: ");
        reveal_strlit("invalid recipient address: ");
    }
    let from_address = string_of(trimmed_chars(settings.from_address.as_str()).as_slice());
    match parse_address(from_address.as_str()) {
        Ok(()) => {},
        Err(e) => {
            let mut m = owned("invalid sender address: ");
            push_str(&mut m, e.as_str());
            return Err(MailError::new(m));
        },
    }
    let to_address = string_of(trimmed_chars(to).as_slice());
    match parse_address(to_address.as_str()) {
        Ok(()) => {},
        Err(e) => {
            let mut m = owned("invalid recipient address: ");
            push_str(&mut m, e.as_str());
            return Err(MailError::new(m));
        },
    }
    let id = new_uuid();
    let parts = header_parts(
        settings.from_address.as_str(),
        settings.from_name.as_str(),
        to,
        id.as_str(),
        message_id_domain,
    );
    match build_message(parts.from_name, parts.from.as_str(), parts.to.as_str(), content, parts.message_id) {
        Ok(raw) => Ok(raw),
        Err(e) => {
            let mut m = owned("could not build the message: ");
            push_str(&mut m, e.as_str());
            Err(MailError::new(m))
        },
    }
}

} // verus!
