//! Whether a sign-in is new enough to tell the owner about.
//!
//! Both predicates are conservative: when the evidence cannot tell one
//! device or browser from another, nothing is new.

use vstd::prelude::*;
use crate::credential::{SessionRow, source_of};
use crate::text::{chars_eq, opt_text, trim, trimmed_chars};

verus! {

/// The trimmed text of an optional field, empty when absent.
pub open spec fn trimmed_opt(o: Option<String>) -> Seq<char> {
    trim(opt_text(o))
}

fn trimmed_opt_exec(o: &Option<String>) -> (v: Vec<char>)
    ensures
        v@ == trimmed_opt(*o),
{
    match o {
        Some(s) => trimmed_chars(s.as_str()),
        None => {
            let v: Vec<char> = Vec::new();
            proof {
                assert(trim(Seq::<char>::empty()) =~= Seq::<char>::empty()) by {
                    reveal_with_fuel(crate::text::trim_start, 1);
                    reveal_with_fuel(crate::text::trim_end, 1);
                }
            }
            v
        },
    }
}

/// Whether `prior` holds a session of this device: its trimmed platform
/// and device id both match.
pub open spec fn knows_device(prior: Seq<SessionRow>, platform: Seq<char>, device_id: Seq<char>) -> bool {
    exists|k: int|
        0 <= k < prior.len() && trimmed_opt((#[trigger] prior[k]).platform) == platform && trimmed_opt(
            prior[k].device_id,
        ) == device_id
}

/// A client device is new when it identified itself (platform and device id
/// both non-blank) and no earlier session carries the same pair.
pub open spec fn is_new_device_spec(prior: Seq<SessionRow>, platform: Seq<char>, device_id: Seq<char>) -> bool {
    let p = trim(platform);
    let d = trim(device_id);
    p.len() > 0 && d.len() > 0 && !knows_device(prior, p, d)
}

/// Whether this client device has never signed in before.
pub fn is_new_device(prior: &[SessionRow], platform: &str, device_id: &str) -> (b: bool)
    ensures
        b == is_new_device_spec(prior@, platform@, device_id@),
{
    let p = trimmed_chars(platform);
    let d = trimmed_chars(device_id);
    if p.len() == 0 || d.len() == 0 {
        return false;
    }
    let mut i: usize = 0;
    while i < prior.len()
        invariant
            i <= prior@.len(),
            p@ == trim(platform@),
            d@ == trim(device_id@),
            forall|k: int|
                0 <= k < i ==> !(trimmed_opt((#[trigger] prior@[k]).platform) == p@ && trimmed_opt(
                    prior@[k].device_id,
                ) == d@),
        decreases prior@.len() - i,
    {
        let rp = trimmed_opt_exec(&prior[i].platform);
        let rd = trimmed_opt_exec(&prior[i].device_id);
        if chars_eq(rp.as_slice(), p.as_slice()) && chars_eq(rd.as_slice(), d.as_slice()) {
            return false;
        }
        i = i + 1;
    }
    true
}

/// Whether a session is a browser's, shown under this label.
pub open spec fn browser_shown_as(row: SessionRow, label: Seq<char>) -> bool {
    &&& source_of(row).spec_is_browser()
    &&& row.client_label matches Some(l) && l@ == label
}

/// Whether `prior` holds a browser session shown under this label.
pub open spec fn knows_browser(prior: Seq<SessionRow>, label: Seq<char>) -> bool {
    exists|k: int| 0 <= k < prior.len() && browser_shown_as(#[trigger] prior[k], label)
}

/// A browser is new when its `User-Agent` gave a label and no earlier
/// browser session was shown under the same label; a client's stored agent
/// is its HTTP library and says nothing of a browser.
pub open spec fn is_new_browser_spec(prior: Seq<SessionRow>, current_label: Option<Seq<char>>) -> bool {
    match current_label {
        None => false,
        Some(l) => !knows_browser(prior, l),
    }
}

/// Whether this browser has never signed in before. `current_label` is the
/// display label of the request's `User-Agent`, `None` when it had none
/// worth describing.
pub fn is_new_browser(prior: &[SessionRow], current_label: Option<&str>) -> (b: bool)
    ensures
        b == is_new_browser_spec(
            prior@,
            match current_label {
                Some(l) => Some(l@),
                None => None,
            },
        ),
{
    let label = match current_label {
        None => return false,
        Some(l) => l,
    };
    let mut i: usize = 0;
    while i < prior.len()
        invariant
            i <= prior@.len(),
            current_label == Some(label),
            forall|k: int|
                0 <= k < i ==> !browser_shown_as(#[trigger] prior@[k], label@),
        decreases prior@.len() - i,
    {
        let row = &prior[i];
        let browser = match row.source {
            Some(s) => s.is_browser(),
            None => true,
        };
        if browser {
            match &row.client_label {
                Some(l) => {
                    if crate::text::str_eq(l.as_str(), label) {
                        return false;
                    }
                },
                None => {},
            }
        }
        i = i + 1;
    }
    true
}

} // verus!
