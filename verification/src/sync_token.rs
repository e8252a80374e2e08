//! Which sync token a device gets for a library.
//!
//! A token belongs to one (library, user, device). Resolution per library:
//! the device's own token is reused while it is usable; failing that, an
//! unattributed token (one minted by a caller without a device identity)
//! is claimed for the device, or shared when the caller has no device;
//! failing that, a fresh token is minted. The store is consulted between
//! the decisions, so the resolution is a state machine: each step takes
//! what the store answered and says what to ask it next.

use vstd::prelude::*;
use crate::crypto::hex_encode_spec;
use crate::text::owned;
use crate::token::{
    TOKEN_LEN, generate_sync_token, sync_token_expiry, sync_token_expiry_spec, token_expired,
    token_expired_spec,
};

verus! {

/// A stored sync token: its row, its expiry, and its raw value when the
/// stored ciphertext could be read (`None` once the server secret changed).
#[derive(Debug, Clone, PartialEq, Eq)]
pub struct StoredToken {
    pub row_id: i32,
    pub expires_at: Option<i64>,
    pub raw: Option<String>,
}

/// The raw value of a stored token that may still be handed out at `now`.
pub open spec fn reusable_spec(t: StoredToken, now: i64) -> Option<Seq<char>> {
    if token_expired_spec(t.expires_at, now) {
        None
    } else {
        match t.raw {
            Some(r) => Some(r@),
            None => None,
        }
    }
}

/// The raw value of a stored token, when it is unexpired and readable.
pub fn reusable(t: &StoredToken, now: i64) -> (r: Option<String>)
    ensures
        match r {
            Some(s) => reusable_spec(*t, now) == Some(s@),
            None => reusable_spec(*t, now) is None,
        },
{
    if token_expired(t.expires_at, now) {
        return None;
    }
    match &t.raw {
        Some(s) => Some(owned(s.as_str())),
        None => None,
    }
}

/// Whether a sync token sent in a request body is accepted: a row for the
/// token and the library exists (`expires_at` is its expiry), it has not
/// expired at `now`, and its owner exists and is active (`owner_active` is
/// `None` when the owner is gone).
pub fn body_token_accepted(found: bool, expires_at: Option<i64>, now: i64, owner_active: Option<bool>) -> (b: bool)
    ensures
        b == (found && !token_expired_spec(expires_at, now) && owner_active == Some(true)),
{
    if !found || token_expired(expires_at, now) {
        return false;
    }
    match owner_active {
        Some(active) => active,
        None => false,
    }
}

/// Where a resolution stands: what it last asked the store.
#[derive(Debug, Clone, Copy, PartialEq, Eq, Structural)]
pub enum ResolveStage {
    /// Nothing asked yet.
    Start,
    /// The device's own stale row is being deleted.
    DeletingOwn,
    /// The unattributed row is being claimed for the device.
    Claiming,
    /// The claim was lost; the device's own row is being looked up.
    AfterLostClaim,
    /// The stale unattributed row is being looked up again.
    CheckingUnattributed,
    /// The stale unattributed row is being deleted.
    DeletingUnattributed,
    /// A fresh token is being stored.
    Creating,
    /// Storing failed; the device's own row is being looked up.
    AfterFailedCreate,
    /// Finished.
    Finished,
}

/// What the store answered.
#[derive(Debug, Clone, PartialEq, Eq)]
pub enum TokenEvent {
    /// The resolution begins (nothing was asked yet).
    Begin,
    /// A deletion was made.
    Deleted,
    /// A claim was made; `true` when it attached the device.
    Attached(bool),
    /// A lookup found this row, or none.
    Found(Option<StoredToken>),
    /// A creation was tried; `true` when the row was stored.
    Created(bool),
}

/// What the store should do next.
#[derive(Debug, Clone, PartialEq, Eq)]
pub enum TokenAction {
    /// Finished: hand out this token.
    Use(String),
    /// Delete this row; answer `Deleted`.
    Delete(i32),
    /// Attach the device to this row unless it already has one; answer
    /// `Attached`.
    Attach(i32),
    /// Look up the device's own row for the library; answer `Found`.
    FindOwn,
    /// Look up the library's unattributed row; answer `Found`.
    FindUnattributed,
    /// Store this fresh token with this expiry, attributed to the device
    /// when there is one; answer `Created`.
    Create(String, Option<i64>),
    /// Finished: report the store's error from the failed creation.
    Fail,
}

/// The resolution of one library's token.
#[derive(Debug, Clone)]
pub struct SyncTokenResolution {
    pub stage: ResolveStage,
    /// Whether the caller has a device identity.
    pub device: bool,
    /// The device's own row, as loaded.
    pub own: Option<StoredToken>,
    /// The library's unattributed row, as loaded.
    pub unattributed: Option<StoredToken>,
    pub now: i64,
    pub ttl_days: u64,
    /// The fresh token while it is being stored.
    pub minted: Option<String>,
}

/// Whether the expiry of a token minted at `now` for `ttl_days` is in range.
pub open spec fn expiry_in_range(now: i64, ttl_days: u64) -> bool {
    ttl_days * 86400 <= i64::MAX && now + ttl_days * 86400 <= i64::MAX
}

/// The answer each stage waits for.
pub open spec fn expects(stage: ResolveStage, e: TokenEvent) -> bool {
    match stage {
        ResolveStage::Start => e == TokenEvent::Begin,
        ResolveStage::DeletingOwn => e == TokenEvent::Deleted,
        ResolveStage::Claiming => e is Attached,
        ResolveStage::AfterLostClaim => e is Found,
        ResolveStage::CheckingUnattributed => e is Found,
        ResolveStage::DeletingUnattributed => e == TokenEvent::Deleted,
        ResolveStage::Creating => e is Created,
        ResolveStage::AfterFailedCreate => e is Found,
        ResolveStage::Finished => false,
    }
}

/// A planned step: move to a stage and ask for an action; finish by handing
/// out a token (see `handed_out`); or mint a fresh token, whose value is
/// chance, and ask for it to be stored.
pub ghost enum Planned {
    Act(ResolveStage, TokenAction),
    Hand,
    Mint,
}

/// Whether an action hands out exactly this text.
pub open spec fn uses(a: TokenAction, s: Seq<char>) -> bool {
    a matches TokenAction::Use(t) && t@ == s
}

/// The step once the device's own row is settled: reuse or claim the
/// unattributed row, look it up again when it is stale, or mint.
pub open spec fn unattributed_step(r: SyncTokenResolution) -> Planned {
    match r.unattributed {
        Some(u) => match reusable_spec(u, r.now) {
            Some(_) => if r.device {
                Planned::Act(ResolveStage::Claiming, TokenAction::Attach(u.row_id))
            } else {
                Planned::Mint
            },
            None => Planned::Act(ResolveStage::CheckingUnattributed, TokenAction::FindUnattributed),
        },
        None => Planned::Mint,
    }
}

/// Whether the resolution hands out a shared unattributed token: no device
/// and a usable unattributed row once the own row is settled.
pub open spec fn shares_unattributed(r: SyncTokenResolution) -> bool {
    !r.device && (r.unattributed matches Some(u) && reusable_spec(u, r.now) is Some)
}

/// The step once the device's own row is settled (gone or deleted).
pub open spec fn after_own_spec(r: SyncTokenResolution) -> Planned {
    if shares_unattributed(r) {
        Planned::Hand
    } else {
        unattributed_step(r)
    }
}

/// The next step of a resolution, given the store's answer.
pub open spec fn step_spec(r: SyncTokenResolution, e: TokenEvent) -> Planned {
    match r.stage {
        ResolveStage::Start => match r.own {
            Some(o) => match reusable_spec(o, r.now) {
                Some(_) => Planned::Hand,
                None => Planned::Act(ResolveStage::DeletingOwn, TokenAction::Delete(o.row_id)),
            },
            None => after_own_spec(r),
        },
        ResolveStage::DeletingOwn => after_own_spec(r),
        ResolveStage::Claiming => match e {
            TokenEvent::Attached(true) => Planned::Hand,
            _ => Planned::Act(ResolveStage::AfterLostClaim, TokenAction::FindOwn),
        },
        ResolveStage::AfterLostClaim => match e {
            TokenEvent::Found(Some(m)) => match reusable_spec(m, r.now) {
                Some(_) => Planned::Hand,
                None => Planned::Mint,
            },
            _ => Planned::Mint,
        },
        ResolveStage::CheckingUnattributed => match e {
            TokenEvent::Found(Some(_)) => Planned::Act(
                ResolveStage::DeletingUnattributed,
                TokenAction::Delete(r.unattributed->Some_0.row_id),
            ),
            _ => Planned::Mint,
        },
        ResolveStage::DeletingUnattributed => Planned::Mint,
        ResolveStage::Creating => match e {
            TokenEvent::Created(true) => Planned::Hand,
            _ => if r.device {
                Planned::Act(ResolveStage::AfterFailedCreate, TokenAction::FindOwn)
            } else {
                Planned::Act(ResolveStage::Finished, TokenAction::Fail)
            },
        },
        ResolveStage::AfterFailedCreate => match e {
            TokenEvent::Found(Some(m)) => match reusable_spec(m, r.now) {
                Some(_) => Planned::Hand,
                None => Planned::Act(ResolveStage::Finished, TokenAction::Fail),
            },
            _ => Planned::Act(ResolveStage::Finished, TokenAction::Fail),
        },
        ResolveStage::Finished => Planned::Act(ResolveStage::Finished, TokenAction::Fail),
    }
}

/// The token a finishing step hands out: the own row's, the unattributed
/// row's, the row the store just found, or the freshly stored one.
pub open spec fn handed_out(r: SyncTokenResolution, e: TokenEvent) -> Option<Seq<char>> {
    match r.stage {
        ResolveStage::Start => match r.own {
            Some(o) => reusable_spec(o, r.now),
            None => if shares_unattributed(r) {
                reusable_spec(r.unattributed->Some_0, r.now)
            } else {
                None
            },
        },
        ResolveStage::DeletingOwn => if shares_unattributed(r) {
            reusable_spec(r.unattributed->Some_0, r.now)
        } else {
            None
        },
        ResolveStage::Claiming => match e {
            TokenEvent::Attached(true) => reusable_spec(r.unattributed->Some_0, r.now),
            _ => None,
        },
        ResolveStage::AfterLostClaim | ResolveStage::AfterFailedCreate => match e {
            TokenEvent::Found(Some(m)) => reusable_spec(m, r.now),
            _ => None,
        },
        ResolveStage::Creating => match e {
            TokenEvent::Created(true) => match r.minted {
                Some(t) => Some(t@),
                None => None,
            },
            _ => None,
        },
        _ => None,
    }
}

/// Whether a resolution's parts fit its stage: a claim is only pending on a
/// usable unattributed row, a deletion of it only on a stale one, and a
/// creation only with a fresh token in hand.
pub open spec fn resolution_ok(r: SyncTokenResolution) -> bool {
    &&& expiry_in_range(r.now, r.ttl_days)
    &&& (r.stage == ResolveStage::Claiming ==> (r.unattributed matches Some(u) && reusable_spec(
        u,
        r.now,
    ) is Some))
    &&& (r.stage == ResolveStage::CheckingUnattributed || r.stage
        == ResolveStage::DeletingUnattributed ==> (r.unattributed matches Some(u) && reusable_spec(
        u,
        r.now,
    ) is None))
    &&& (r.stage == ResolveStage::Creating ==> r.minted is Some)
}

/// Whether `after` is `before` moved to `stage`, with only the fresh token
/// possibly replaced.
pub open spec fn moved_to(before: SyncTokenResolution, after: SyncTokenResolution, stage: ResolveStage) -> bool {
    &&& after.stage == stage
    &&& after.device == before.device
    &&& after.own == before.own
    &&& after.unattributed == before.unattributed
    &&& after.now == before.now
    &&& after.ttl_days == before.ttl_days
}

/// Whether a token is fresh: the hex of 20 bytes.
pub open spec fn fresh_sync_token(t: Seq<char>) -> bool {
    t.len() == TOKEN_LEN && exists|b: Seq<u8>| b.len() == 20 && t == hex_encode_spec(b)
}

/// Whether a step from `before` to `after` with action `a` carries out the
/// plan `p`, handing out `handed` when it finishes with a token.
pub open spec fn follows(
    before: SyncTokenResolution,
    after: SyncTokenResolution,
    p: Planned,
    handed: Option<Seq<char>>,
    a: TokenAction,
) -> bool {
    match p {
        Planned::Act(stage, act) => moved_to(before, after, stage) && a == act,
        Planned::Hand => moved_to(before, after, ResolveStage::Finished) && (handed matches Some(s)
            && uses(a, s)),
        Planned::Mint => moved_to(before, after, ResolveStage::Creating) && (a matches TokenAction::Create(
            t,
            exp,
        ) && after.minted == Some(t) && fresh_sync_token(t@) && match exp {
            Some(x) => sync_token_expiry_spec(before.now, before.ttl_days) == Some(x as int),
            None => sync_token_expiry_spec(before.now, before.ttl_days) is None,
        }),
    }
}

/// How far a stage is from the end: every step lowers it.
pub open spec fn stage_rank(s: ResolveStage) -> nat {
    match s {
        ResolveStage::Start => 8,
        ResolveStage::DeletingOwn => 7,
        ResolveStage::Claiming => 6,
        ResolveStage::AfterLostClaim => 5,
        ResolveStage::CheckingUnattributed => 5,
        ResolveStage::DeletingUnattributed => 4,
        ResolveStage::Creating => 3,
        ResolveStage::AfterFailedCreate => 2,
        ResolveStage::Finished => 0,
    }
}

/// The stage a planned step moves to.
pub open spec fn planned_stage(p: Planned) -> ResolveStage {
    match p {
        Planned::Act(stage, _) => stage,
        Planned::Hand => ResolveStage::Finished,
        Planned::Mint => ResolveStage::Creating,
    }
}

/// Every resolution finishes: each step moves to a stage nearer the end, so
/// at most eight answers of the store are needed.
pub proof fn every_step_moves_nearer_the_end(r: SyncTokenResolution, e: TokenEvent)
    requires
        resolution_ok(r),
        expects(r.stage, e),
    ensures
        stage_rank(planned_stage(step_spec(r, e))) < stage_rank(r.stage),
{
}

/// The device's own token wins: when it is usable, the first step hands it
/// out.
pub proof fn own_usable_token_wins(r: SyncTokenResolution, o: StoredToken)
    requires
        r.stage == ResolveStage::Start,
        r.own == Some(o),
        reusable_spec(o, r.now) is Some,
    ensures
        step_spec(r, TokenEvent::Begin) == Planned::Hand,
        handed_out(r, TokenEvent::Begin) == reusable_spec(o, r.now),
{
}

/// Only a usable token, or the one just stored, is ever handed out: a
/// finishing step hands out the own row's, the unattributed row's or a
/// freshly found row's value while it is usable, or the minted token once
/// its creation succeeded.
pub proof fn only_usable_tokens_are_handed_out(r: SyncTokenResolution, e: TokenEvent)
    requires
        resolution_ok(r),
        expects(r.stage, e),
        step_spec(r, e) == Planned::Hand,
    ensures
        handed_out(r, e) is Some,
        ({
            let s = handed_out(r, e)->Some_0;
            ||| (r.own matches Some(o) && reusable_spec(o, r.now) == Some(s))
            ||| (r.unattributed matches Some(u) && reusable_spec(u, r.now) == Some(s))
            ||| (e matches TokenEvent::Found(Some(m)) && reusable_spec(m, r.now) == Some(s))
            ||| (e == TokenEvent::Created(true) && (r.minted matches Some(t) && t@ == s))
        }),
{
}

/// A device never takes the shared token without claiming it: settling the
/// device's own row leads to a claim, a second look or a fresh token, never
/// straight to the unattributed row's value.
pub proof fn a_device_claims_before_sharing(r: SyncTokenResolution, e: TokenEvent)
    requires
        r.device,
        (r.stage == ResolveStage::Start && r.own is None) || r.stage == ResolveStage::DeletingOwn,
    ensures
        step_spec(r, e) != Planned::Hand,
{
}

/// A usable row is never deleted: the device's own row goes only when it is
/// stale, and the unattributed row only when it is stale and the store
/// still shows it unattributed.
pub proof fn only_stale_rows_are_deleted(r: SyncTokenResolution, e: TokenEvent, id: i32)
    requires
        resolution_ok(r),
        expects(r.stage, e),
        step_spec(r, e) matches Planned::Act(_, TokenAction::Delete(d)) && d == id,
    ensures
        ({
            ||| (r.stage == ResolveStage::Start && (r.own matches Some(o) && o.row_id == id
                && reusable_spec(o, r.now) is None))
            ||| (r.stage == ResolveStage::CheckingUnattributed && e is Found && e->Found_0 is Some
                && (r.unattributed matches Some(u) && u.row_id == id && reusable_spec(u, r.now) is None))
        }),
{
}

impl SyncTokenResolution {
    /// A resolution for a library, from the two rows loaded for it.
    pub fn new(device: bool, own: Option<StoredToken>, unattributed: Option<StoredToken>, now: i64, ttl_days: u64) -> (r: Self)
        requires
            expiry_in_range(now, ttl_days),
        ensures
            r.stage == ResolveStage::Start,
            r.device == device && r.own == own && r.unattributed == unattributed,
            r.now == now && r.ttl_days == ttl_days,
            resolution_ok(r),
    {
        SyncTokenResolution { stage: ResolveStage::Start, device, own, unattributed, now, ttl_days, minted: None }
    }

    fn mint(&mut self) -> (a: TokenAction)
        requires
            expiry_in_range(old(self).now, old(self).ttl_days),
        ensures
            follows(*old(self), *final(self), Planned::Mint, None, a),
    {
        let t = generate_sync_token();
        let exp = sync_token_expiry(self.now, self.ttl_days);
        self.minted = Some(t.clone());
        self.stage = ResolveStage::Creating;
        TokenAction::Create(t, exp)
    }

    fn finish_with(&mut self, t: String) -> (a: TokenAction)
        ensures
            moved_to(*old(self), *final(self), ResolveStage::Finished),
            a == TokenAction::Use(t),
    {
        self.stage = ResolveStage::Finished;
        TokenAction::Use(t)
    }

    fn after_own(&mut self) -> (a: TokenAction)
        requires
            expiry_in_range(old(self).now, old(self).ttl_days),
        ensures
            resolution_ok(*final(self)),
            follows(
                *old(self),
                *final(self),
                after_own_spec(*old(self)),
                match old(self).unattributed {
                    Some(u) => reusable_spec(u, old(self).now),
                    None => None,
                },
                a,
            ),
    {
        match &self.unattributed {
            Some(u) => {
                match reusable(u, self.now) {
                    Some(raw) => {
                        if self.device {
                            let id = u.row_id;
                            self.stage = ResolveStage::Claiming;
                            TokenAction::Attach(id)
                        } else {
                            self.finish_with(raw)
                        }
                    },
                    None => {
                        self.stage = ResolveStage::CheckingUnattributed;
                        TokenAction::FindUnattributed
                    },
                }
            },
            None => self.mint(),
        }
    }

    /// Take the store's answer and say what to ask next. A `Use` or `Fail`
    /// action finishes the resolution.
    pub fn advance(&mut self, event: TokenEvent) -> (a: TokenAction)
        requires
            resolution_ok(*old(self)),
            expects(old(self).stage, event),
        ensures
            resolution_ok(*final(self)),
            follows(*old(self), *final(self), step_spec(*old(self), event), handed_out(*old(self), event), a),
    {
        match self.stage {
            ResolveStage::Start => {
                match &self.own {
                    Some(o) => match reusable(o, self.now) {
                        Some(raw) => self.finish_with(raw),
                        None => {
                            let id = o.row_id;
                            self.stage = ResolveStage::DeletingOwn;
                            TokenAction::Delete(id)
                        },
                    },
                    None => self.after_own(),
                }
            },
            ResolveStage::DeletingOwn => self.after_own(),
            ResolveStage::Claiming => {
                match event {
                    TokenEvent::Attached(true) => {
                        let raw = match &self.unattributed {
                            Some(u) => reusable(u, self.now),
                            None => None,
                        };
                        match raw {
                            Some(t) => self.finish_with(t),
                            None => {
                                self.stage = ResolveStage::AfterLostClaim;
                                TokenAction::FindOwn
                            },
                        }
                    },
                    _ => {
                        self.stage = ResolveStage::AfterLostClaim;
                        TokenAction::FindOwn
                    },
                }
            },
            ResolveStage::AfterLostClaim => {
                match event {
                    TokenEvent::Found(Some(m)) => match reusable(&m, self.now) {
                        Some(t) => self.finish_with(t),
                        None => self.mint(),
                    },
                    _ => self.mint(),
                }
            },
            ResolveStage::CheckingUnattributed => {
                match event {
                    TokenEvent::Found(Some(_)) => {
                        let id = match &self.unattributed {
                            Some(u) => u.row_id,
                            None => 0,
                        };
                        self.stage = ResolveStage::DeletingUnattributed;
                        TokenAction::Delete(id)
                    },
                    _ => self.mint(),
                }
            },
            ResolveStage::DeletingUnattributed => self.mint(),
            ResolveStage::Creating => {
                match event {
                    TokenEvent::Created(true) => {
                        let t = match &self.minted {
                            Some(t) => owned(t.as_str()),
                            None => String::new(),
                        };
                        self.finish_with(t)
                    },
                    _ => {
                        if self.device {
                            self.stage = ResolveStage::AfterFailedCreate;
                            TokenAction::FindOwn
                        } else {
                            self.stage = ResolveStage::Finished;
                            TokenAction::Fail
                        }
                    },
                }
            },
            ResolveStage::AfterFailedCreate => {
                self.stage = ResolveStage::Finished;
                match event {
                    TokenEvent::Found(Some(m)) => match reusable(&m, self.now) {
                        Some(t) => TokenAction::Use(t),
                        None => TokenAction::Fail,
                    },
                    _ => TokenAction::Fail,
                }
            },
            ResolveStage::Finished => TokenAction::Fail,
        }
    }
}

} // verus!
