//! How a library is shown to a member: the v2 `RepoInfo` block and the
//! v2.1 listing entry, and the joins that turn a member's memberships into
//! the list of libraries it sees.

use vstd::prelude::*;
use crate::repo::{RepoCrypto, RepoRow};
use crate::split::{email_name, email_name_spec};
use crate::error::{AppError, is_not_found, not_found};
use crate::text::{copy_opt_string, owned, str_eq};

verus! {

/// A stored library row.
#[derive(Debug, Clone)]
pub struct RepoModel {
    pub id: String,
    pub name: String,
    pub description: String,
    pub owner_id: i32,
    pub size: i64,
    pub updated_at: i64,
    pub head_commit_id: Option<String>,
    pub repo_version: i32,
    /// The encryption columns.
    pub crypto: RepoRow,
}

/// The profile of a library's owner: the address and the display name.
#[derive(Debug, Clone)]
pub struct OwnerProfile {
    pub id: i32,
    pub email: String,
    pub name: String,
}

/// A member's access to one library.
#[derive(Debug, Clone)]
pub struct Membership {
    pub repo_id: String,
    pub permission: String,
}

/// A library in the v2 API's shape.
#[derive(Debug, Clone)]
pub struct RepoInfo {
    pub id: String,
    pub name: String,
    pub desc: String,
    pub owner: String,
    pub owner_name: String,
    /// Group-owned libraries are not modelled; always none.
    pub groupid: Option<i32>,
    pub encrypted: bool,
    pub enc_version: Option<i32>,
    pub size: i64,
    pub mtime: i64,
    pub permission: String,
    pub head_commit_id: Option<String>,
    /// `repo` for the caller's own library, `srepo` for a shared one.
    pub type_: String,
    pub virtual_: bool,
    pub root: Option<String>,
    pub salt: Option<String>,
    pub magic: Option<String>,
    pub random_key: Option<String>,
    pub pwd_hash: Option<String>,
    pub pwd_hash_algo: Option<String>,
    pub pwd_hash_params: Option<String>,
    pub repo_version: i32,
    pub lib_need_decrypt: Option<bool>,
    pub repo_id_dup: Option<String>,
    pub repo_name_dup: Option<String>,
    pub token: Option<String>,
    pub email: Option<String>,
}

/// A library in the v2.1 API's shape.
#[derive(Debug, Clone)]
pub struct V21RepoInfo {
    pub repo_id: String,
    pub repo_name: String,
    pub repo_desc: String,
    pub permission: String,
    pub encrypted: bool,
    /// `mine` for the caller's own library, `shared` otherwise.
    pub type_: String,
    pub size: i64,
    pub last_modified: String,
    pub mtime: i64,
    pub owner_email: String,
    pub owner_name: String,
    pub owner_contact_email: String,
    pub group_id: Option<i32>,
    pub group_name: Option<String>,
}

/// The v2.1 listing.
#[derive(Debug, Clone)]
pub struct V21RepoListResponse {
    pub repos: Vec<V21RepoInfo>,
}

/// The index of the first profile with this id.
pub open spec fn profile_index(owners: Seq<OwnerProfile>, id: i32) -> Option<int>
    decreases owners.len(),
{
    if owners.len() == 0 {
        None
    } else {
        match profile_index(owners.drop_last(), id) {
            Some(i) => Some(i),
            None => if owners.last().id == id {
                Some(owners.len() - 1)
            } else {
                None
            },
        }
    }
}

proof fn lemma_profile_index(owners: Seq<OwnerProfile>, id: i32)
    ensures
        match profile_index(owners, id) {
            Some(i) => 0 <= i < owners.len() && owners[i].id == id && forall|j: int|
                0 <= j < i ==> #[trigger] owners[j].id != id,
            None => forall|j: int| 0 <= j < owners.len() ==> #[trigger] owners[j].id != id,
        },
    decreases owners.len(),
{
    if owners.len() > 0 {
        lemma_profile_index(owners.drop_last(), id);
        assert forall|j: int| 0 <= j < owners.len() - 1 implies owners.drop_last()[j] == #[trigger] owners[j] by {}
    }
}

/// The owner's address and display name as a member sees them: the caller's
/// own address and the part before its `@` for its own library; the owner's
/// profile otherwise, or two empty strings when the owner is gone.
pub open spec fn owner_shown(
    owner_id: i32,
    requester_email: Seq<char>,
    is_owner: bool,
    owners: Seq<OwnerProfile>,
) -> (Seq<char>, Seq<char>) {
    if is_owner {
        (requester_email, email_name_spec(requester_email))
    } else {
        match profile_index(owners, owner_id) {
            Some(i) => (owners[i].email@, owners[i].name@),
            None => (Seq::empty(), Seq::empty()),
        }
    }
}

/// Resolve the owner columns of a listed library.
pub fn resolve_owner(owner_id: i32, requester_email: &str, is_owner: bool, owners: &[OwnerProfile]) -> (r: (
    String,
    String,
))
    ensures
        (r.0@, r.1@) == owner_shown(owner_id, requester_email@, is_owner, owners@),
{
    if is_owner {
        return (owned(requester_email), email_name(requester_email));
    }
    let mut i: usize = 0;
    proof {
        lemma_profile_index(owners@, owner_id);
    }
    while i < owners.len()
        invariant
            i <= owners@.len(),
            !is_owner,
            forall|j: int| 0 <= j < i ==> #[trigger] owners@[j].id != owner_id,
            match profile_index(owners@, owner_id) {
                Some(k) => 0 <= k < owners@.len() && owners@[k].id == owner_id && forall|j: int|
                    0 <= j < k ==> #[trigger] owners@[j].id != owner_id,
                None => forall|j: int| 0 <= j < owners@.len() ==> #[trigger] owners@[j].id != owner_id,
            },
        decreases owners@.len() - i,
    {
        if owners[i].id == owner_id {
            proof {
                let k = profile_index(owners@, owner_id)->Some_0;
                if k < i {
                    assert(owners@[k].id != owner_id);
                }
                if k > i {
                    assert(owners@[i as int].id != owner_id);
                }
            }
            let e = owners[i].email.clone();
            let n = owners[i].name.clone();
            proof {
                assert(profile_index(owners@, owner_id) == Some(i as int));
                assert(e@ == owners@[i as int].email@);
                assert(n@ == owners@[i as int].name@);
            }
            return (e, n);
        }
        i = i + 1;
    }
    (String::new(), String::new())
}

/// `info` is `r` shown to `user_id` with the given owner columns and
/// permission: the crypto block as every read path shows it, the salt only
/// for an encrypted library from version 3 on, and no per-caller extras.
pub open spec fn repo_info_of(
    info: RepoInfo,
    r: RepoModel,
    owner_email: Seq<char>,
    owner_name: Seq<char>,
    permission: Seq<char>,
    user_id: i32,
) -> bool {
    let encrypted = r.crypto.encrypted != 0;
    &&& info.id == r.id
    &&& info.name == r.name
    &&& info.desc == r.description
    &&& info.owner@ == owner_email
    &&& info.owner_name@ == owner_name
    &&& info.groupid is None
    &&& info.encrypted == encrypted
    &&& info.enc_version == (if encrypted { Some(r.crypto.enc_version as i32) } else { None })
    &&& info.size == r.size
    &&& info.mtime == r.updated_at
    &&& info.permission@ == permission
    &&& info.head_commit_id == r.head_commit_id
    &&& info.type_@ == (if r.owner_id == user_id { "repo"@ } else { "srepo"@ })
    &&& !info.virtual_
    &&& info.root is None
    &&& info.salt == (if encrypted && r.crypto.enc_version >= 3 { Some(r.crypto.salt) } else { None })
    &&& info.magic == (if encrypted && r.crypto.pwd_hash is None { r.crypto.magic } else { None })
    &&& info.random_key == (if encrypted { r.crypto.random_key } else { None })
    &&& info.pwd_hash == (if encrypted { r.crypto.pwd_hash } else { None })
    &&& info.pwd_hash_algo == (if encrypted { r.crypto.pwd_hash_algo } else { None })
    &&& info.pwd_hash_params == (if encrypted { r.crypto.pwd_hash_params } else { None })
    &&& info.repo_version == r.repo_version
    &&& info.lib_need_decrypt == (if encrypted { Some(true) } else { None })
    &&& info.repo_id_dup is None
    &&& info.repo_name_dup is None
    &&& info.token is None
    &&& info.email is None
}

/// The v2 block of a stored library, for a caller with `permission`.
pub fn build_repo_info_from_model(
    r: &RepoModel,
    owner_email: &str,
    owner_name: &str,
    permission: &str,
    user_id: i32,
) -> (info: RepoInfo)
    ensures
        repo_info_of(info, *r, owner_email@, owner_name@, permission@, user_id),
{
    let encrypted = r.crypto.encrypted != 0;
    let crypto = RepoCrypto::from_model(&r.crypto);
    let type_ = if r.owner_id == user_id {
        owned("repo")
    } else {
        owned("srepo")
    };
    proof {
        reveal_strlit("repo");
        reveal_strlit("srepo");
    }
    RepoInfo {
        id: r.id.clone(),
        name: r.name.clone(),
        desc: r.description.clone(),
        owner: owned(owner_email),
        owner_name: owned(owner_name),
        groupid: None,
        encrypted,
        enc_version: if encrypted {
            Some(r.crypto.enc_version as i32)
        } else {
            None
        },
        size: r.size,
        mtime: r.updated_at,
        permission: owned(permission),
        head_commit_id: copy_opt_string(&r.head_commit_id),
        type_,
        virtual_: false,
        root: None,
        salt: if encrypted && r.crypto.enc_version >= 3 {
            Some(r.crypto.salt.clone())
        } else {
            None
        },
        magic: crypto.magic,
        random_key: crypto.key,
        pwd_hash: crypto.pwd_hash,
        pwd_hash_algo: crypto.pwd_hash_algo,
        pwd_hash_params: crypto.pwd_hash_params,
        repo_version: r.repo_version,
        lib_need_decrypt: if encrypted {
            Some(true)
        } else {
            None
        },
        repo_id_dup: None,
        repo_name_dup: None,
        token: None,
        email: None,
    }
}

/// The index of the first stored library with this id.
pub open spec fn repo_index(rows: Seq<RepoModel>, id: Seq<char>) -> Option<int>
    decreases rows.len(),
{
    if rows.len() == 0 {
        None
    } else {
        match repo_index(rows.drop_last(), id) {
            Some(i) => Some(i),
            None => if rows.last().id@ == id {
                Some(rows.len() - 1)
            } else {
                None
            },
        }
    }
}

proof fn lemma_repo_index(rows: Seq<RepoModel>, id: Seq<char>)
    ensures
        match repo_index(rows, id) {
            Some(i) => 0 <= i < rows.len() && rows[i].id@ == id && forall|j: int|
                0 <= j < i ==> #[trigger] rows[j].id@ != id,
            None => forall|j: int| 0 <= j < rows.len() ==> #[trigger] rows[j].id@ != id,
        },
    decreases rows.len(),
{
    if rows.len() > 0 {
        lemma_repo_index(rows.drop_last(), id);
        assert forall|j: int| 0 <= j < rows.len() - 1 implies rows.drop_last()[j] == #[trigger] rows[j] by {}
    }
}

/// Find the stored library a membership refers to.
fn find_repo(rows: &[RepoModel], id: &str) -> (r: Option<usize>)
    ensures
        match r {
            Some(i) => i < rows@.len() && repo_index(rows@, id@) == Some(i as int),
            None => repo_index(rows@, id@) is None,
        },
{
    proof {
        lemma_repo_index(rows@, id@);
    }
    let mut i: usize = 0;
    while i < rows.len()
        invariant
            i <= rows@.len(),
            forall|j: int| 0 <= j < i ==> #[trigger] rows@[j].id@ != id@,
            match repo_index(rows@, id@) {
                Some(k) => 0 <= k < rows@.len() && rows@[k].id@ == id@ && forall|j: int|
                    0 <= j < k ==> #[trigger] rows@[j].id@ != id@,
                None => forall|j: int| 0 <= j < rows@.len() ==> #[trigger] rows@[j].id@ != id@,
            },
        decreases rows@.len() - i,
    {
        if str_eq(rows[i].id.as_str(), id) {
            proof {
                let k = repo_index(rows@, id@)->Some_0;
                if k < i {
                    assert(rows@[k].id@ != id@);
                }
                if k > i {
                    assert(rows@[i as int].id@ != id@);
                }
            }
            return Some(i);
        }
        i = i + 1;
    }
    None
}

/// The memberships whose library is among the loaded rows, in order: a
/// membership of a library that is gone lists nothing.
pub open spec fn listed(memberships: Seq<Membership>, rows: Seq<RepoModel>) -> Seq<Membership> {
    memberships.filter(|m: Membership| repo_index(rows, m.repo_id@) is Some)
}

/// The loaded row a listed membership refers to.
pub open spec fn row_of(rows: Seq<RepoModel>, m: Membership) -> RepoModel {
    rows[repo_index(rows, m.repo_id@)->Some_0]
}

/// The v2 list of a member's libraries: one block per membership whose
/// library was loaded, in membership order, with the member's permission
/// and the owner columns resolved from `owners`.
pub fn list_repo_infos(
    memberships: &[Membership],
    rows: &[RepoModel],
    owners: &[OwnerProfile],
    user_id: i32,
    email: &str,
) -> (out: Vec<RepoInfo>)
    ensures
        out@.len() == listed(memberships@, rows@).len(),
        forall|k: int|
            0 <= k < out@.len() ==> {
                let m = listed(memberships@, rows@)[k];
                let r = row_of(rows@, m);
                let shown = owner_shown(r.owner_id, email@, r.owner_id == user_id, owners@);
                repo_info_of(#[trigger] out@[k], r, shown.0, shown.1, m.permission@, user_id)
            },
{
    let ghost keep = |m: Membership| repo_index(rows@, m.repo_id@) is Some;
    let mut out: Vec<RepoInfo> = Vec::new();
    let mut i: usize = 0;
    proof {
        assert(memberships@.take(0) =~= Seq::<Membership>::empty());
        reveal(Seq::filter);
    }
    while i < memberships.len()
        invariant
            i <= memberships@.len(),
            keep == (|m: Membership| repo_index(rows@, m.repo_id@) is Some),
            out@.len() == memberships@.take(i as int).filter(keep).len(),
            forall|k: int|
                0 <= k < out@.len() ==> {
                    let m = memberships@.take(i as int).filter(keep)[k];
                    let r = row_of(rows@, m);
                    let shown = owner_shown(r.owner_id, email@, r.owner_id == user_id, owners@);
                    repo_info_of(#[trigger] out@[k], r, shown.0, shown.1, m.permission@, user_id)
                },
        decreases memberships@.len() - i,
    {
        let ghost before = memberships@.take(i as int).filter(keep);
        proof {
            let t = memberships@.take(i + 1);
            assert(t.drop_last() =~= memberships@.take(i as int));
            assert(t.last() == memberships@[i as int]);
            reveal(Seq::filter);
        }
        let m = &memberships[i];
        match find_repo(rows, m.repo_id.as_str()) {
            Some(j) => {
                let r = &rows[j];
                let is_owner = r.owner_id == user_id;
                let (owner_email, owner_name) = resolve_owner(r.owner_id, email, is_owner, owners);
                let info = build_repo_info_from_model(
                    r,
                    owner_email.as_str(),
                    owner_name.as_str(),
                    m.permission.as_str(),
                    user_id,
                );
                out.push(info);
                proof {
                    let f = memberships@.take(i + 1).filter(keep);
                    assert(f =~= before.push(memberships@[i as int]));
                    assert forall|k: int| 0 <= k < out@.len() implies {
                        let mm = f[k];
                        let rr = row_of(rows@, mm);
                        let shown = owner_shown(rr.owner_id, email@, rr.owner_id == user_id, owners@);
                        repo_info_of(#[trigger] out@[k], rr, shown.0, shown.1, mm.permission@, user_id)
                    } by {
                        if k < before.len() {
                            assert(f[k] == before[k]);
                        }
                    }
                }
            },
            None => {
                proof {
                    let f = memberships@.take(i + 1).filter(keep);
                    assert(f =~= before);
                }
            },
        }
        i = i + 1;
    }
    proof {
        assert(memberships@.take(i as int) =~= memberships@);
    }
    out
}

/// `info` is `r` in the v2.1 listing for `user_id`, with the member's
/// permission, the owner columns and the rendered modification time.
pub open spec fn v21_info_of(
    info: V21RepoInfo,
    r: RepoModel,
    permission: Seq<char>,
    owner_email: Seq<char>,
    owner_name: Seq<char>,
    last_modified: Seq<char>,
    user_id: i32,
) -> bool {
    &&& info.repo_id == r.id
    &&& info.repo_name == r.name
    &&& info.repo_desc == r.description
    &&& info.permission@ == permission
    &&& info.encrypted == (r.crypto.encrypted != 0)
    &&& info.type_@ == (if r.owner_id == user_id { "mine"@ } else { "shared"@ })
    &&& info.size == r.size
    &&& info.last_modified@ == last_modified
    &&& info.mtime == r.updated_at
    &&& info.owner_email@ == owner_email
    &&& info.owner_name@ == owner_name
    &&& info.owner_contact_email@ == owner_email
    &&& info.group_id is None
    &&& info.group_name is None
}

/// The v2.1 entry of a library; `last_modified` is its modification time
/// already rendered as RFC 3339.
pub fn v21_repo_info(
    r: &RepoModel,
    permission: &str,
    user_id: i32,
    requester_email: &str,
    owners: &[OwnerProfile],
    last_modified: &str,
) -> (info: V21RepoInfo)
    ensures
        ({
            let shown = owner_shown(r.owner_id, requester_email@, r.owner_id == user_id, owners@);
            v21_info_of(info, *r, permission@, shown.0, shown.1, last_modified@, user_id)
        }),
{
    let is_owner = r.owner_id == user_id;
    let (owner_email, owner_name) = resolve_owner(r.owner_id, requester_email, is_owner, owners);
    proof {
        reveal_strlit("mine");
        reveal_strlit("shared");
    }
    V21RepoInfo {
        repo_id: r.id.clone(),
        repo_name: r.name.clone(),
        repo_desc: r.description.clone(),
        permission: owned(permission),
        encrypted: r.crypto.encrypted != 0,
        type_: if is_owner {
            owned("mine")
        } else {
            owned("shared")
        },
        size: r.size,
        last_modified: owned(last_modified),
        mtime: r.updated_at,
        owner_contact_email: owner_email.clone(),
        owner_email,
        owner_name,
        group_id: None,
        group_name: None,
    }
}

/// The v2.1 list of a member's libraries: one entry per membership whose
/// library was loaded, in membership order. `rendered[j]` is the RFC 3339
/// rendering of `rows[j]`'s modification time.
pub fn list_v21_repo_infos(
    memberships: &[Membership],
    rows: &[RepoModel],
    rendered: &[String],
    owners: &[OwnerProfile],
    user_id: i32,
    email: &str,
) -> (out: V21RepoListResponse)
    requires
        rendered@.len() == rows@.len(),
    ensures
        out.repos@.len() == listed(memberships@, rows@).len(),
        forall|k: int|
            0 <= k < out.repos@.len() ==> {
                let m = listed(memberships@, rows@)[k];
                let j = repo_index(rows@, m.repo_id@)->Some_0;
                let r = rows@[j];
                let shown = owner_shown(r.owner_id, email@, r.owner_id == user_id, owners@);
                v21_info_of(#[trigger] out.repos@[k], r, m.permission@, shown.0, shown.1, rendered@[j]@, user_id)
            },
{
    let ghost keep = |m: Membership| repo_index(rows@, m.repo_id@) is Some;
    let mut out: Vec<V21RepoInfo> = Vec::new();
    let mut i: usize = 0;
    proof {
        reveal(Seq::filter);
    }
    while i < memberships.len()
        invariant
            i <= memberships@.len(),
            rendered@.len() == rows@.len(),
            keep == (|m: Membership| repo_index(rows@, m.repo_id@) is Some),
            out@.len() == memberships@.take(i as int).filter(keep).len(),
            forall|k: int|
                0 <= k < out@.len() ==> {
                    let m = memberships@.take(i as int).filter(keep)[k];
                    let j = repo_index(rows@, m.repo_id@)->Some_0;
                    let r = rows@[j];
                    let shown = owner_shown(r.owner_id, email@, r.owner_id == user_id, owners@);
                    v21_info_of(#[trigger] out@[k], r, m.permission@, shown.0, shown.1, rendered@[j]@, user_id)
                },
        decreases memberships@.len() - i,
    {
        let ghost before = memberships@.take(i as int).filter(keep);
        proof {
            let t = memberships@.take(i + 1);
            assert(t.drop_last() =~= memberships@.take(i as int));
            assert(t.last() == memberships@[i as int]);
            reveal(Seq::filter);
        }
        let m = &memberships[i];
        match find_repo(rows, m.repo_id.as_str()) {
            Some(j) => {
                let info = v21_repo_info(
                    &rows[j],
                    m.permission.as_str(),
                    user_id,
                    email,
                    owners,
                    rendered[j].as_str(),
                );
                out.push(info);
                proof {
                    let f = memberships@.take(i + 1).filter(keep);
                    assert(f =~= before.push(memberships@[i as int]));
                    assert forall|k: int| 0 <= k < out@.len() implies {
                        let mm = f[k];
                        let jj = repo_index(rows@, mm.repo_id@)->Some_0;
                        let rr = rows@[jj];
                        let shown = owner_shown(rr.owner_id, email@, rr.owner_id == user_id, owners@);
                        v21_info_of(#[trigger] out@[k], rr, mm.permission@, shown.0, shown.1, rendered@[jj]@, user_id)
                    } by {
                        if k < before.len() {
                            assert(f[k] == before[k]);
                        }
                    }
                }
            },
            None => {
                proof {
                    let f = memberships@.take(i + 1).filter(keep);
                    assert(f =~= before);
                }
            },
        }
        i = i + 1;
    }
    proof {
        assert(memberships@.take(i as int) =~= memberships@);
    }
    V21RepoListResponse { repos: out }
}

/// A single library in the v2.1 shape for a member: `repo not found` when
/// the caller is no member or the library is gone.
pub fn repo_v21_of(
    membership: Option<&Membership>,
    row: Option<&RepoModel>,
    user_id: i32,
    email: &str,
    owners: &[OwnerProfile],
    last_modified: &str,
) -> (r: Result<V21RepoInfo, AppError>)
    ensures
        membership is None || row is None ==> (r matches Err(e) && is_not_found(e, "repo not found"@)),
        membership is Some && row is Some ==> (r matches Ok(info) && ({
            let m = membership->Some_0;
            let rr = row->Some_0;
            let shown = owner_shown(rr.owner_id, email@, rr.owner_id == user_id, owners@);
            v21_info_of(info, *rr, m.permission@, shown.0, shown.1, last_modified@, user_id)
        })),
{
    match (membership, row) {
        (Some(m), Some(rr)) => Ok(v21_repo_info(rr, m.permission.as_str(), user_id, email, owners, last_modified)),
        _ => Err(not_found("repo not found")),
    }
}

} // verus!
