//! Storage quota: a user's effective allowance, whether an upload fits, and
//! the ledger of cached usage and of bytes reserved by uncommitted uploads.

use vstd::prelude::*;
use crate::error::AppError;
use crate::text::{owned, str_eq};

verus! {

/// How long a usage snapshot is served, in milliseconds.
pub const USAGE_TTL_MS: u64 = 500;

/// A user's allowance in bytes, or none for unlimited: an explicit zero
/// means unlimited; no setting falls back to the global cap, where zero
/// (or a cap too large to count) is unlimited as well.
pub open spec fn effective_quota_spec(storage_quota: Option<i64>, global_max: u64) -> Option<i64> {
    match storage_quota {
        Some(n) => if n <= 0 { None } else { Some(n) },
        None => if 0 < global_max && global_max <= i64::MAX { Some(global_max as i64) } else { None },
    }
}

/// The effective quota of a user.
pub fn effective_quota(storage_quota: Option<i64>, global_max: u64) -> (q: Option<i64>)
    ensures
        q == effective_quota_spec(storage_quota, global_max),
{
    match storage_quota {
        Some(n) => if n <= 0 {
            None
        } else {
            Some(n)
        },
        None => if 0 < global_max && global_max <= 9223372036854775807u64 {
            Some(global_max as i64)
        } else {
            None
        },
    }
}

/// Whether an upload of `delta` bytes fits: nothing is charged for a
/// non-positive delta or an unlimited quota; otherwise usage plus delta
/// must not exceed the quota.
pub fn check_upload_fits(quota: Option<i64>, usage: i64, delta: i64) -> (r: Result<(), AppError>)
    requires
        delta > 0 && quota is Some ==> usage + delta <= i64::MAX,
    ensures
        r is Ok <==> (delta <= 0 || quota is None || usage + delta <= quota->0),
        r is Err ==> r == Err::<(), AppError>(AppError::QuotaExceeded),
{
    if delta <= 0 {
        return Ok(());
    }
    match quota {
        None => Ok(()),
        Some(q) => if usage + delta > q {
            Err(AppError::QuotaExceeded)
        } else {
            Ok(())
        },
    }
}

/// A cached usage total.
#[derive(Debug, Clone, Copy, PartialEq, Eq)]
pub struct UsageSnapshot {
    pub user_id: i32,
    pub usage: i64,
    pub stored_at_ms: u64,
}

/// Bytes written by an upload that has not committed yet.
#[derive(Debug, Clone, PartialEq, Eq)]
pub struct Reservation {
    pub user_id: i32,
    pub repo_id: String,
    pub bytes: i64,
}

/// The bytes `user_id` has reserved.
pub open spec fn reserved_by(r: Seq<Reservation>, user_id: i32) -> int
    decreases r.len(),
{
    if r.len() == 0 {
        0
    } else {
        reserved_by(r.drop_last(), user_id) + if r.last().user_id == user_id {
            r.last().bytes as int
        } else {
            0
        }
    }
}

/// The bytes `user_id` has reserved in `repo_id`.
pub open spec fn reserved_in(r: Seq<Reservation>, user_id: i32, repo_id: Seq<char>) -> int
    decreases r.len(),
{
    if r.len() == 0 {
        0
    } else {
        reserved_in(r.drop_last(), user_id, repo_id) + if r.last().user_id == user_id && r.last().repo_id@
            == repo_id {
            r.last().bytes as int
        } else {
            0
        }
    }
}

/// The reservations that stay when those of `(user_id, repo_id)` go.
pub open spec fn without_repo(r: Seq<Reservation>, user_id: i32, repo_id: Seq<char>) -> Seq<Reservation>
    decreases r.len(),
{
    if r.len() == 0 {
        Seq::empty()
    } else {
        let rest = without_repo(r.drop_last(), user_id, repo_id);
        if r.last().user_id == user_id && r.last().repo_id@ == repo_id {
            rest
        } else {
            rest.push(r.last())
        }
    }
}

/// Cached usage totals and outstanding reservations. Reservations are
/// positive; the total reserved by a user stays countable.
pub struct QuotaLedger {
    snapshots: Vec<UsageSnapshot>,
    reservations: Vec<Reservation>,
}

impl QuotaLedger {
    /// The cached usage totals.
    pub closed spec fn snapshots(&self) -> Seq<UsageSnapshot> {
        self.snapshots@
    }

    /// The outstanding reservations.
    pub closed spec fn reservations(&self) -> Seq<Reservation> {
        self.reservations@
    }

    /// Every reservation is positive, and there are fewer than 2^32 of them.
    /// The bound is not a rule of the service: it only keeps the sum of the
    /// reservations (each below 2^63) within the `i128` the ledger adds them
    /// up in.
    pub open spec fn well_formed(&self) -> bool {
        &&& forall|k: int| 0 <= k < self.reservations().len() ==> #[trigger] self.reservations()[k].bytes > 0
        &&& self.reservations().len() < 0x1_0000_0000
    }

    /// The usage a lookup at `now` serves for `user_id`: the latest
    /// snapshot of that user while it is fresh.
    pub open spec fn cached_spec(&self, user_id: i32, now: u64) -> Option<i64> {
        latest_fresh(self.snapshots(), user_id, now)
    }

    /// An empty ledger.
    pub fn new() -> (l: Self)
        ensures
            l.well_formed(),
            l.snapshots().len() == 0,
            l.reservations().len() == 0,
    {
        QuotaLedger { snapshots: Vec::new(), reservations: Vec::new() }
    }

    /// The cached usage of a user, while it is fresh.
    pub fn cached_usage(&self, user_id: i32, now: u64) -> (r: Option<i64>)
        ensures
            r == self.cached_spec(user_id, now),
    {
        let mut i = self.snapshots.len();
        proof {
            assert(self.snapshots@.take(i as int) =~= self.snapshots@);
        }
        while i > 0
            invariant
                i <= self.snapshots@.len(),
                latest_fresh(self.snapshots@, user_id, now) == latest_fresh(self.snapshots@.take(i as int), user_id, now),
            decreases i,
        {
            let s = self.snapshots[i - 1];
            proof {
                let t = self.snapshots@.take(i as int);
                assert(t.drop_last() =~= self.snapshots@.take(i - 1));
                assert(t.last() == s);
            }
            if s.user_id == user_id {
                if s.stored_at_ms <= now && now - s.stored_at_ms < USAGE_TTL_MS {
                    return Some(s.usage);
                }
                return None;
            }
            i = i - 1;
        }
        proof {
            assert(self.snapshots@.take(0) =~= Seq::<UsageSnapshot>::empty());
        }
        None
    }

    /// Remember a freshly computed usage total.
    pub fn store_usage(&mut self, user_id: i32, usage: i64, now: u64)
        requires
            old(self).well_formed(),
        ensures
            final(self).well_formed(),
            final(self).reservations() == old(self).reservations(),
            final(self).cached_spec(user_id, now) == Some(usage),
            forall|u: i32, t: u64| u != user_id ==> #[trigger] final(self).cached_spec(u, t) == old(self).cached_spec(u, t),
    {
        self.snapshots.push(UsageSnapshot { user_id, usage, stored_at_ms: now });
        proof {
            assert(self.snapshots@.drop_last() == old(self).snapshots@);
        }
    }

    /// Drop a user's cached usage, so the next check reads the committed
    /// total.
    pub fn invalidate_usage(&mut self, user_id: i32)
        requires
            old(self).well_formed(),
        ensures
            final(self).well_formed(),
            final(self).reservations() == old(self).reservations(),
            forall|t: u64| #[trigger] final(self).cached_spec(user_id, t) is None,
            forall|u: i32, t: u64| u != user_id ==> #[trigger] final(self).cached_spec(u, t) == old(self).cached_spec(u, t),
    {
        let ghost orig = self.snapshots@;
        let mut kept: Vec<UsageSnapshot> = Vec::new();
        let mut i: usize = 0;
        while i < self.snapshots.len()
            invariant
                i <= orig.len(),
                self.snapshots@ == orig,
                kept@ == without_user(orig.take(i as int), user_id),
            decreases orig.len() - i,
        {
            proof {
                let t = orig.take(i + 1);
                assert(t.drop_last() =~= orig.take(i as int));
                assert(t.last() == orig[i as int]);
            }
            let s = self.snapshots[i];
            if s.user_id != user_id {
                kept.push(s);
            }
            i = i + 1;
        }
        proof {
            assert(orig.take(i as int) =~= orig);
            lemma_without_user(orig, user_id);
        }
        self.snapshots = kept;
    }

    /// Reserve `delta` bytes for an upload of `user_id` into `repo_id` when
    /// committed usage, everything the user already reserved and `delta`
    /// together stay within `quota`; otherwise refuse with `QuotaExceeded`
    /// and reserve nothing. The bound on the number of reservations only
    /// keeps their `i128` sum in range.
    pub fn reserve_if_fits(&mut self, user_id: i32, repo_id: &str, delta: i64, usage: i64, quota: i64) -> (r: Result<(), AppError>)
        requires
            old(self).well_formed(),
            delta > 0,
            old(self).reservations().len() + 1 < 0x1_0000_0000,
        ensures
            final(self).well_formed(),
            final(self).snapshots() == old(self).snapshots(),
            r is Ok <==> usage + reserved_by(old(self).reservations(), user_id) + delta <= quota,
            r is Ok ==> final(self).reservations() == old(self).reservations().push(
                Reservation { user_id, repo_id: final(self).reservations().last().repo_id, bytes: delta },
            ) && final(self).reservations().last().repo_id@ == repo_id@,
            r is Err ==> final(self).reservations() == old(self).reservations() && r == Err::<(), AppError>(
                AppError::QuotaExceeded,
            ),
    {
        let reserved = self.reserved_total(user_id);
        if (usage as i128) + reserved + (delta as i128) > (quota as i128) {
            return Err(AppError::QuotaExceeded);
        }
        self.reservations.push(Reservation { user_id, repo_id: owned(repo_id), bytes: delta });
        proof {
            let v = self.reservations@;
            assert forall|k: int| 0 <= k < v.len() implies #[trigger] v[k].bytes > 0 by {
                if k < v.len() - 1 {
                    assert(v[k] == old(self).reservations@[k]);
                }
            }
        }
        Ok(())
    }

    /// The bytes a user has reserved, in total.
    fn reserved_total(&self, user_id: i32) -> (t: i128)
        requires
            self.well_formed(),
        ensures
            t == reserved_by(self.reservations(), user_id),
            0 <= t <= self.reservations().len() * 9223372036854775807,
    {
        let mut t: i128 = 0;
        let mut i: usize = 0;
        proof {
            assert(self.reservations@.take(0) =~= Seq::<Reservation>::empty());
        }
        while i < self.reservations.len()
            invariant
                i <= self.reservations@.len(),
                self.well_formed(),
                t == reserved_by(self.reservations@.take(i as int), user_id),
                0 <= t <= i * 9223372036854775807,
            decreases self.reservations@.len() - i,
        {
            proof {
                let s = self.reservations@.take(i + 1);
                assert(s.drop_last() =~= self.reservations@.take(i as int));
                assert(s.last() == self.reservations@[i as int]);
                assert(self.reservations@[i as int].bytes > 0);
            }
            if self.reservations[i].user_id == user_id {
                t = t + (self.reservations[i].bytes as i128);
            }
            i = i + 1;
        }
        proof {
            assert(self.reservations@.take(i as int) =~= self.reservations@);
        }
        t
    }

    /// Drop every reservation of `(user_id, repo_id)`, returning how many
    /// bytes were released: the upload committed, or its blocks are gone.
    pub fn release_repo(&mut self, user_id: i32, repo_id: &str) -> (released: i128)
        requires
            old(self).well_formed(),
        ensures
            final(self).well_formed(),
            final(self).snapshots() == old(self).snapshots(),
            final(self).reservations() == without_repo(old(self).reservations(), user_id, repo_id@),
            released == reserved_in(old(self).reservations(), user_id, repo_id@),
    {
        let ghost orig = self.reservations@;
        let mut kept: Vec<Reservation> = Vec::new();
        let mut released: i128 = 0;
        let mut i: usize = 0;
        proof {
            assert(orig.take(0) =~= Seq::<Reservation>::empty());
        }
        while i < self.reservations.len()
            invariant
                i <= orig.len(),
                self.reservations@ == orig,
                orig.len() < 0x1_0000_0000,
                forall|k: int| 0 <= k < orig.len() ==> #[trigger] orig[k].bytes > 0,
                kept@ == without_repo(orig.take(i as int), user_id, repo_id@),
                released == reserved_in(orig.take(i as int), user_id, repo_id@),
                0 <= released <= i * 9223372036854775807,
            decreases orig.len() - i,
        {
            proof {
                let t = orig.take(i + 1);
                assert(t.drop_last() =~= orig.take(i as int));
                assert(t.last() == orig[i as int]);
            }
            let r = &self.reservations[i];
            if r.user_id == user_id && str_eq(r.repo_id.as_str(), repo_id) {
                released = released + (r.bytes as i128);
            } else {
                kept.push(Reservation { user_id: r.user_id, repo_id: r.repo_id.clone(), bytes: r.bytes });
            }
            i = i + 1;
        }
        proof {
            assert(orig.take(i as int) =~= orig);
            lemma_without_repo(orig, user_id, repo_id@);
        }
        self.reservations = kept;
        released
    }
}

/// The snapshots of other users.
pub open spec fn without_user(s: Seq<UsageSnapshot>, user_id: i32) -> Seq<UsageSnapshot>
    decreases s.len(),
{
    if s.len() == 0 {
        Seq::empty()
    } else {
        let rest = without_user(s.drop_last(), user_id);
        if s.last().user_id == user_id {
            rest
        } else {
            rest.push(s.last())
        }
    }
}

/// The usage the latest snapshot of `user_id` gives at `now`, while fresh.
pub open spec fn latest_fresh(s: Seq<UsageSnapshot>, user_id: i32, now: u64) -> Option<i64>
    decreases s.len(),
{
    if s.len() == 0 {
        None
    } else if s.last().user_id == user_id {
        if s.last().stored_at_ms <= now && now - s.last().stored_at_ms < USAGE_TTL_MS {
            Some(s.last().usage)
        } else {
            None
        }
    } else {
        latest_fresh(s.drop_last(), user_id, now)
    }
}

proof fn lemma_without_user(s: Seq<UsageSnapshot>, user_id: i32)
    ensures
        forall|t: u64| #[trigger] latest_fresh(without_user(s, user_id), user_id, t) is None,
        forall|u: i32, t: u64| u != user_id ==> #[trigger] latest_fresh(without_user(s, user_id), u, t)
            == latest_fresh(s, u, t),
    decreases s.len(),
{
    if s.len() > 0 {
        lemma_without_user(s.drop_last(), user_id);
        let rest = without_user(s.drop_last(), user_id);
        let w = without_user(s, user_id);
        if s.last().user_id != user_id {
            assert(w == rest.push(s.last()));
            assert(w.drop_last() =~= rest);
            assert(w.last() == s.last());
        } else {
            assert(w == rest);
        }
        assert forall|t: u64| #[trigger] latest_fresh(w, user_id, t) is None by {
            assert(latest_fresh(rest, user_id, t) is None);
        }
        assert forall|u: i32, t: u64| u != user_id implies #[trigger] latest_fresh(w, u, t) == latest_fresh(
            s,
            u,
            t,
        ) by {
            assert(latest_fresh(rest, u, t) == latest_fresh(s.drop_last(), u, t));
        }
    }
}

proof fn lemma_without_repo(r: Seq<Reservation>, user_id: i32, repo_id: Seq<char>)
    ensures
        forall|k: int| 0 <= k < without_repo(r, user_id, repo_id).len() ==> r.contains(
            #[trigger] without_repo(r, user_id, repo_id)[k],
        ),
        without_repo(r, user_id, repo_id).len() <= r.len(),
    decreases r.len(),
{
    if r.len() > 0 {
        lemma_without_repo(r.drop_last(), user_id, repo_id);
        let rest = without_repo(r.drop_last(), user_id, repo_id);
        assert forall|k: int| 0 <= k < without_repo(r, user_id, repo_id).len() implies r.contains(
            #[trigger] without_repo(r, user_id, repo_id)[k],
        ) by {
            let w = without_repo(r, user_id, repo_id);
            if k < rest.len() {
                assert(w[k] == rest[k]);
                let j = choose|j: int| 0 <= j < r.drop_last().len() && r.drop_last()[j] == rest[k];
                assert(r[j] == rest[k]);
            } else {
                assert(w[k] == r.last());
                assert(r[r.len() - 1] == r.last());
            }
        }
    }
}

/// Drop a user's cached usage after a commit.
pub fn invalidate_user(ledger: &mut QuotaLedger, user_id: i32)
    requires
        old(ledger).well_formed(),
    ensures
        final(ledger).well_formed(),
        final(ledger).reservations() == old(ledger).reservations(),
        forall|t: u64| #[trigger] final(ledger).cached_spec(user_id, t) is None,
        forall|u: i32, t: u64| u != user_id ==> #[trigger] final(ledger).cached_spec(u, t) == old(ledger).cached_spec(u, t),
{
    ledger.invalidate_usage(user_id);
}

/// Drop every outstanding reservation of `(user_id, repo_id)`; returns the
/// bytes released.
pub fn release_repo_reservation(ledger: &mut QuotaLedger, user_id: i32, repo_id: &str) -> (released: i128)
    requires
        old(ledger).well_formed(),
    ensures
        final(ledger).well_formed(),
        final(ledger).snapshots() == old(ledger).snapshots(),
        final(ledger).reservations() == without_repo(old(ledger).reservations(), user_id, repo_id@),
        released == reserved_in(old(ledger).reservations(), user_id, repo_id@),
{
    ledger.release_repo(user_id, repo_id)
}

} // verus!
