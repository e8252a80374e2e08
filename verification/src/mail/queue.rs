//! The outbox's schedule and bookkeeping: the retry backoff, how a rendered
//! message is encoded for its text column, and what one drain reports.

use vstd::prelude::*;
use crate::crypto::{base64_decode, base64_encode, base64_standard, base64_standard_decode};
use crate::text::{decimal, push_decimal, push_str};

verus! {

/// Messages attempted per drain.
pub const DRAIN_BATCH: u64 = 25;

/// The delay before the first retry, in seconds.
pub const BASE_BACKOFF_SECS: i64 = 30;

/// The longest delay between two attempts: an hour.
pub const MAX_BACKOFF_SECS: i64 = 3600;

/// The delay after `attempts` failed tries: 30 s doubled per further try,
/// capped at an hour. An attempt number below one counts as one.
pub open spec fn backoff_spec(attempts: i32) -> i64
    decreases (if attempts > 1 { attempts } else { 1 }),
{
    if attempts <= 1 {
        BASE_BACKOFF_SECS
    } else {
        let prev = backoff_spec((attempts - 1) as i32);
        if prev * 2 >= MAX_BACKOFF_SECS {
            MAX_BACKOFF_SECS
        } else {
            (prev * 2) as i64
        }
    }
}

proof fn lemma_backoff_bounds(attempts: i32)
    ensures
        BASE_BACKOFF_SECS <= backoff_spec(attempts) <= MAX_BACKOFF_SECS,
    decreases (if attempts > 1 { attempts } else { 1 }),
{
    if attempts > 1 {
        lemma_backoff_bounds((attempts - 1) as i32);
    }
}

/// Once the cap is reached the delay stays there.
proof fn lemma_backoff_capped(a: i32, b: i32)
    requires
        a <= b,
        backoff_spec(a) == MAX_BACKOFF_SECS,
    ensures
        backoff_spec(b) == MAX_BACKOFF_SECS,
    decreases b - a,
{
    if a < b {
        lemma_backoff_capped(a, (b - 1) as i32);
        lemma_backoff_bounds((b - 1) as i32);
    }
}

/// The delay never shrinks as failures accumulate, and it never leaves the
/// range from 30 seconds to an hour.
pub proof fn backoff_monotone(a: i32, b: i32)
    requires
        a <= b,
    ensures
        backoff_spec(a) <= backoff_spec(b),
        BASE_BACKOFF_SECS <= backoff_spec(b) <= MAX_BACKOFF_SECS,
    decreases b - a,
{
    lemma_backoff_bounds(b);
    if a < b {
        backoff_monotone(a, (b - 1) as i32);
        lemma_backoff_bounds((b - 1) as i32);
    }
}

/// Delay before the next attempt after `attempts` failed tries: 30 s, 1 min,
/// 2 min, 4 min … capped at an hour.
pub fn backoff_secs(attempts: i32) -> (d: i64)
    ensures
        d == backoff_spec(attempts),
{
    let mut d: i64 = BASE_BACKOFF_SECS;
    let mut k: i32 = 1;
    let target: i32 = if attempts > 1 { attempts } else { 1 };
    while k < target
        invariant
            1 <= k <= target,
            target == (if attempts > 1 { attempts } else { 1 }),
            d == backoff_spec(k),
            BASE_BACKOFF_SECS <= d <= MAX_BACKOFF_SECS,
        decreases target - k,
    {
        if d == MAX_BACKOFF_SECS {
            proof {
                lemma_backoff_capped(k, target);
            }
            return d;
        }
        d = if d * 2 >= MAX_BACKOFF_SECS { MAX_BACKOFF_SECS } else { d * 2 };
        k = k + 1;
        proof {
            lemma_backoff_bounds(k);
        }
    }
    proof {
        if attempts <= 1 {
            assert(backoff_spec(attempts) == BASE_BACKOFF_SECS);
        }
    }
    d
}

/// When the next attempt is due after `attempts` failed tries: always
/// later than `now`, so a retry is always delayed.
pub fn next_attempt_at(now: i64, attempts: i32) -> (t: i64)
    requires
        now + backoff_spec(attempts) <= i64::MAX,
    ensures
        t == now + backoff_spec(attempts),
        t > now,
{
    let d = backoff_secs(attempts);
    proof {
        lemma_backoff_bounds(attempts);
    }
    now + d
}

/// Encode a rendered message for its text column (standard base64), so a
/// header holding raw UTF-8 cannot break the round trip.
pub fn encode_body(raw: &[u8]) -> (s: String)
    ensures
        s@ == base64_standard(raw@),
        base64_standard_decode(s@) == Some(raw@),
{
    base64_encode(raw)
}

/// Inverse of [`encode_body`]; `None` for text that is not base64.
pub fn decode_body(encoded: &str) -> (r: Option<Vec<u8>>)
    ensures
        match r {
            Some(v) => base64_standard_decode(encoded@) == Some(v@),
            None => base64_standard_decode(encoded@) is None,
        },
{
    base64_decode(encoded)
}

/// What one drain accomplished, for the scheduler's task metrics.
#[derive(Debug, Clone, Default, PartialEq, Eq)]
pub struct DrainReport {
    pub delivered: u64,
    pub retried: u64,
    pub failed: u64,
    pub pruned: u64,
}

impl DrainReport {
    /// A one-line summary for the task page.
    pub fn summary(&self) -> (s: String)
        ensures
            s@ == decimal(self.delivered as nat) + " delivered, "@ + decimal(self.retried as nat)
                + " retrying, "@ + decimal(self.failed as nat) + " failed, "@ + decimal(
                self.pruned as nat,
            ) + " pruned"@,
    {
        let mut s = String::new();
        push_decimal(&mut s, self.delivered);
        push_str(&mut s, " delivered, ");
        push_decimal(&mut s, self.retried);
        push_str(&mut s, " retrying, ");
        push_decimal(&mut s, self.failed);
        push_str(&mut s, " failed, ");
        push_decimal(&mut s, self.pruned);
        push_str(&mut s, " pruned");
        proof {
            assert(s@ =~= decimal(self.delivered as nat) + " delivered, "@ + decimal(self.retried as nat)
                + " retrying, "@ + decimal(self.failed as nat) + " failed, "@ + decimal(
                self.pruned as nat,
            ) + " pruned"@);
        }
        s
    }

    /// How many messages the drain tried to send.
    pub fn attempted(&self) -> (n: u64)
        requires
            self.delivered + self.retried + self.failed <= u64::MAX,
        ensures
            n == self.delivered + self.retried + self.failed,
    {
        self.delivered + self.retried + self.failed
    }
}

/// Why a queued message was given up on without a try: its body could not
/// be read back.
pub const UNREADABLE_BODY: &'static str =
    "the queued message body is missing or cannot be decrypted; this usually means the server secret_key changed";

/// When a message whose send failed is tried again: after its
/// `attempts_before + 1`-th attempt, it is retried on the backoff schedule
/// while that number is below the configured maximum, and failed for good
/// otherwise (none).
pub open spec fn retry_spec(attempts_before: i32, max_attempts: u32, now: i64) -> Option<i64> {
    let attempt_no = attempts_before + 1;
    if attempt_no < (max_attempts as i32) {
        Some((now + backoff_spec(attempt_no as i32)) as i64)
    } else {
        None
    }
}

/// The next attempt of a message whose send just failed.
pub fn retry_after_failure(attempts_before: i32, max_attempts: u32, now: i64) -> (r: Option<i64>)
    requires
        attempts_before < i32::MAX,
        attempts_before + 1 < (max_attempts as i32) ==> now + backoff_spec((attempts_before + 1) as i32)
            <= i64::MAX,
    ensures
        r == retry_spec(attempts_before, max_attempts, now),
{
    let attempt_no = attempts_before + 1;
    #[verifier::truncate]
    let max = max_attempts as i32;
    if attempt_no < max {
        Some(next_attempt_at(now, attempt_no))
    } else {
        None
    }
}

impl DrainReport {
    /// Count one message of a drain: delivered, or else what its row shows
    /// when read back (`failed` for a failed row, `retried` when its attempt
    /// count went up); a row another attempt claimed first counts as neither.
    pub fn record(&mut self, delivered: bool, after: Option<(bool, i32)>, attempts_before: i32)
        requires
            old(self).delivered < u64::MAX,
            old(self).failed < u64::MAX,
            old(self).retried < u64::MAX,
        ensures
            final(self).pruned == old(self).pruned,
            final(self).delivered == old(self).delivered + (if delivered { 1int } else { 0 }),
            final(self).failed == old(self).failed + (if !delivered && (after matches Some((f, _)) && f) {
                1int
            } else {
                0
            }),
            final(self).retried == old(self).retried + (if !delivered && (after matches Some((f, a)) && !f
                && a > attempts_before) {
                1int
            } else {
                0
            }),
    {
        if delivered {
            self.delivered = self.delivered + 1;
            return;
        }
        match after {
            Some((failed, attempts)) => {
                if failed {
                    self.failed = self.failed + 1;
                } else if attempts > attempts_before {
                    self.retried = self.retried + 1;
                }
            },
            None => {},
        }
    }
}

} // verus!
