//! The activity feed: which page a request reads and which libraries it
//! covers.

use vstd::prelude::*;
use crate::clock::{rfc3339_of, timestamp_to_iso};
use crate::text::str_eq;

verus! {

/// The activity service; its queries are the database's.
pub struct ActivityService;

/// The number of unseen notifications: there is no notification system, so
/// none are ever unseen.
pub fn get_unseen_messages() -> (n: i32)
    ensures
        n == 0,
{
    0
}

/// How many events precede the requested page (pages count from one; page
/// zero reads the first page).
pub fn activity_offset(page: u32, per_page: u32) -> (o: u64)
    requires
        (if page == 0 { 0 } else { page - 1 }) * per_page <= u32::MAX,
    ensures
        o == (if page == 0 { 0 } else { page - 1 }) * per_page,
{
    let p: u32 = if page == 0 { 0 } else { page - 1 };
    (p * per_page) as u64
}

/// Whether `ids` holds this id.
pub open spec fn has_id(ids: Seq<String>, id: Seq<char>) -> bool {
    exists|k: int| 0 <= k < ids.len() && #[trigger] ids[k]@ == id
}

/// The libraries whose events a user sees: those they own, in order, then
/// those they are a member of that are not already listed.
pub open spec fn feed_repos(owned: Seq<String>, member_of: Seq<String>) -> Seq<String>
    decreases member_of.len(),
{
    if member_of.len() == 0 {
        owned
    } else {
        let rest = feed_repos(owned, member_of.drop_last());
        if has_id(rest, member_of.last()@) {
            rest
        } else {
            rest.push(member_of.last())
        }
    }
}

fn has_id_exec(ids: &Vec<String>, id: &str) -> (b: bool)
    ensures
        b == has_id(ids@, id@),
{
    let mut i: usize = 0;
    while i < ids.len()
        invariant
            i <= ids@.len(),
            forall|k: int| 0 <= k < i ==> #[trigger] ids@[k]@ != id@,
        decreases ids@.len() - i,
    {
        if str_eq(ids[i].as_str(), id) {
            return true;
        }
        i = i + 1;
    }
    false
}

/// The libraries whose events a user sees.
pub fn feed_repo_ids(owned: Vec<String>, member_of: &[String]) -> (ids: Vec<String>)
    ensures
        ids@ == feed_repos(owned@, member_of@),
{
    let mut ids = owned;
    let ghost start = ids@;
    let mut i: usize = 0;
    proof {
        assert(member_of@.take(0) =~= Seq::<String>::empty());
    }
    while i < member_of.len()
        invariant
            i <= member_of@.len(),
            ids@ == feed_repos(start, member_of@.take(i as int)),
        decreases member_of@.len() - i,
    {
        proof {
            let t = member_of@.take(i + 1);
            assert(t.drop_last() =~= member_of@.take(i as int));
            assert(t.last() == member_of@[i as int]);
        }
        if !has_id_exec(&ids, member_of[i].as_str()) {
            ids.push(member_of[i].clone());
        }
        i = i + 1;
    }
    proof {
        assert(member_of@.take(i as int) =~= member_of@);
    }
    ids
}

/// A member of an event's stored detail, as far as its name goes.
#[derive(Debug, Clone, PartialEq, Eq)]
pub enum DetailField {
    /// The detail has no such member.
    Missing,
    /// The member is a string.
    Text(String),
    /// The member is some other JSON value.
    Other,
}

/// The name an event shows: the detail's `name` member when it has one,
/// else its `file_name`; the text when that member is a string, and empty
/// otherwise. A `name` that is present but not a string does not fall back.
pub open spec fn event_name_spec(name: DetailField, file_name: DetailField) -> Seq<char> {
    let chosen = if name is Missing { file_name } else { name };
    match chosen {
        DetailField::Text(t) => t@,
        _ => Seq::empty(),
    }
}

/// The name shown for an event.
pub fn event_name(name: &DetailField, file_name: &DetailField) -> (n: String)
    ensures
        n@ == event_name_spec(*name, *file_name),
{
    let chosen = match name {
        DetailField::Missing => file_name,
        _ => name,
    };
    match chosen {
        DetailField::Text(t) => t.clone(),
        _ => String::new(),
    }
}

/// The author columns of an event: the nickname and address of its user,
/// or two empty strings when the user is gone.
pub fn event_author(user: Option<(String, String)>) -> (r: (String, String))
    ensures
        match user {
            Some((nickname, email)) => r.0 == nickname && r.1 == email,
            None => r.0@.len() == 0 && r.1@.len() == 0,
        },
{
    match user {
        Some((nickname, email)) => (nickname, email),
        None => (String::new(), String::new()),
    }
}

/// The time an event shows: its creation time in RFC 3339, empty when out
/// of range.
pub fn event_time(created_at: i64) -> (t: String)
    ensures
        t@ == match rfc3339_of(created_at) {
            Some(x) => x,
            None => Seq::empty(),
        },
{
    timestamp_to_iso(created_at)
}

} // verus!
