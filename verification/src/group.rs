//! Groups as a member lists them: who administers a group, how many
//! members it has, and how a user search is phrased.

use vstd::prelude::*;
use crate::text::{ascii_lower_seq, ascii_lower_vec, chars_eq, chars_of, push_char, push_str, str_eq};

verus! {

/// A membership row.
#[derive(Debug, Clone, PartialEq, Eq)]
pub struct GroupMemberRow {
    pub group_id: i32,
    pub user_id: i32,
    pub role: String,
}

/// Whether a role administers its group: `owner` or `admin`, in any ASCII
/// case.
pub open spec fn admin_role_spec(role: Seq<char>) -> bool {
    ascii_lower_seq(role) == "owner"@ || ascii_lower_seq(role) == "admin"@
}

/// Whether a role administers its group.
pub fn is_admin_role(role: &str) -> (b: bool)
    ensures
        b == admin_role_spec(role@),
{
    let v = chars_of(role);
    let l = ascii_lower_vec(v.as_slice());
    let owner = chars_of("owner");
    let admin = chars_of("admin");
    chars_eq(l.as_slice(), owner.as_slice()) || chars_eq(l.as_slice(), admin.as_slice())
}

/// The address of a user, from the addresses found: the last one given.
pub open spec fn email_of(emails: Seq<(i32, String)>, user_id: i32) -> Option<String>
    decreases emails.len(),
{
    if emails.len() == 0 {
        None
    } else if emails.last().0 == user_id {
        Some(emails.last().1)
    } else {
        email_of(emails.drop_last(), user_id)
    }
}

/// Whether `list` holds an address of this text.
pub open spec fn lists_email(list: Seq<String>, e: Seq<char>) -> bool {
    exists|k: int| 0 <= k < list.len() && #[trigger] list[k]@ == e
}

/// The administrators of a group drawn from the first `members`, in
/// order: the address of each member with an administering role, each
/// address once.
pub open spec fn member_admins(group_id: i32, members: Seq<GroupMemberRow>, emails: Seq<(i32, String)>) -> Seq<String>
    decreases members.len(),
{
    if members.len() == 0 {
        Seq::empty()
    } else {
        let rest = member_admins(group_id, members.drop_last(), emails);
        let m = members.last();
        if m.group_id == group_id && admin_role_spec(m.role@) {
            match email_of(emails, m.user_id) {
                Some(e) => if lists_email(rest, e@) {
                    rest
                } else {
                    rest.push(e)
                },
                None => rest,
            }
        } else {
            rest
        }
    }
}

/// The administrators of a group: its administering members, then its
/// creator when not already listed.
pub open spec fn group_admins_spec(
    group_id: i32,
    members: Seq<GroupMemberRow>,
    emails: Seq<(i32, String)>,
    creator_email: Option<String>,
) -> Seq<String> {
    let base = member_admins(group_id, members, emails);
    match creator_email {
        Some(c) => if lists_email(base, c@) {
            base
        } else {
            base.push(c)
        },
        None => base,
    }
}

fn email_of_exec(emails: &[(i32, String)], user_id: i32) -> (e: Option<String>)
    ensures
        e == email_of(emails@, user_id),
{
    let mut i = emails.len();
    proof {
        assert(emails@.take(i as int) =~= emails@);
    }
    while i > 0
        invariant
            i <= emails@.len(),
            email_of(emails@, user_id) == email_of(emails@.take(i as int), user_id),
        decreases i,
    {
        proof {
            let t = emails@.take(i as int);
            assert(t.drop_last() =~= emails@.take(i - 1));
            assert(t.last() == emails@[i - 1]);
        }
        if emails[i - 1].0 == user_id {
            return Some(emails[i - 1].1.clone());
        }
        i = i - 1;
    }
    proof {
        assert(emails@.take(0) =~= Seq::<(i32, String)>::empty());
    }
    None
}

fn lists_email_exec(list: &Vec<String>, e: &str) -> (b: bool)
    ensures
        b == lists_email(list@, e@),
{
    let mut i: usize = 0;
    while i < list.len()
        invariant
            i <= list@.len(),
            forall|k: int| 0 <= k < i ==> #[trigger] list@[k]@ != e@,
        decreases list@.len() - i,
    {
        if str_eq(list[i].as_str(), e) {
            return true;
        }
        i = i + 1;
    }
    false
}

/// The administrators a group listing shows.
pub fn group_admins(
    group_id: i32,
    members: &[GroupMemberRow],
    emails: &[(i32, String)],
    creator_email: Option<String>,
) -> (admins: Vec<String>)
    ensures
        admins@ == group_admins_spec(group_id, members@, emails@, creator_email),
{
    let mut admins: Vec<String> = Vec::new();
    let mut i: usize = 0;
    proof {
        assert(members@.take(0) =~= Seq::<GroupMemberRow>::empty());
    }
    while i < members.len()
        invariant
            i <= members@.len(),
            admins@ == member_admins(group_id, members@.take(i as int), emails@),
        decreases members@.len() - i,
    {
        proof {
            let t = members@.take(i + 1);
            assert(t.drop_last() =~= members@.take(i as int));
            assert(t.last() == members@[i as int]);
        }
        let m = &members[i];
        if m.group_id == group_id && is_admin_role(m.role.as_str()) {
            match email_of_exec(emails, m.user_id) {
                Some(e) => {
                    if !lists_email_exec(&admins, e.as_str()) {
                        admins.push(e);
                    }
                },
                None => {},
            }
        }
        i = i + 1;
    }
    proof {
        assert(members@.take(i as int) =~= members@);
    }
    match creator_email {
        Some(c) => {
            if !lists_email_exec(&admins, c.as_str()) {
                admins.push(c);
            }
        },
        None => {},
    }
    admins
}

/// The number of members of a group.
pub open spec fn member_count_spec(group_id: i32, members: Seq<GroupMemberRow>) -> int
    decreases members.len(),
{
    if members.len() == 0 {
        0
    } else {
        member_count_spec(group_id, members.drop_last()) + if members.last().group_id == group_id {
            1int
        } else {
            0int
        }
    }
}

/// How many members a group has.
pub fn member_count(group_id: i32, members: &[GroupMemberRow]) -> (n: i64)
    requires
        members@.len() <= i64::MAX,
    ensures
        n == member_count_spec(group_id, members@),
{
    let mut n: i64 = 0;
    let mut i: usize = 0;
    proof {
        assert(members@.take(0) =~= Seq::<GroupMemberRow>::empty());
    }
    while i < members.len()
        invariant
            i <= members@.len(),
            members@.len() <= i64::MAX,
            n == member_count_spec(group_id, members@.take(i as int)),
            0 <= n <= i,
        decreases members@.len() - i,
    {
        proof {
            let t = members@.take(i + 1);
            assert(t.drop_last() =~= members@.take(i as int));
            assert(t.last() == members@[i as int]);
        }
        if members[i].group_id == group_id {
            n = n + 1;
        }
        i = i + 1;
    }
    proof {
        assert(members@.take(i as int) =~= members@);
    }
    n
}

/// The pattern a user search matches addresses against: the query
/// anywhere, `%<query>%`.
pub fn user_search_pattern(query: &str) -> (p: String)
    ensures
        p@ == seq!['%'] + query@ + seq!['%'],
{
    let mut p = String::new();
    push_char(&mut p, '%');
    push_str(&mut p, query);
    push_char(&mut p, '%');
    p
}

} // verus!
