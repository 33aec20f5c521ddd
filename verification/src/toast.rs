//! Transient notices in the top-right corner.
use vstd::prelude::*;
use std::time::{Duration, Instant};

verus! {

#[verifier::external_type_specification]
#[verifier::external_body]
pub struct ExInstant(Instant);

/// Calls `Instant::now`.
#[verifier::external_body]
fn now() -> Instant {
    Instant::now()
}

/// What `Instant::checked_add` gives for `t` and `ms` milliseconds:
/// the later instant, or `None` when it cannot be represented.
pub uninterp spec fn plus_millis(t: Instant, ms: u64) -> Option<Instant>;

/// `t` plus `ms` milliseconds (`Instant::checked_add` with
/// `Duration::from_millis`), `None` where the sum cannot be represented;
/// the result is the named one.
#[verifier::external_body]
fn later(t: Instant, ms: u64) -> (r: Option<Instant>)
    ensures
        r == plus_millis(t, ms),
{
    t.checked_add(Duration::from_millis(ms))
}

/// When a notice made at `t` and lasting `ms` milliseconds expires: `ms`
/// later, or at `t` itself where that instant cannot be represented.
pub open spec fn expiry(t: Instant, ms: u64) -> Instant {
    match plus_millis(t, ms) {
        Some(e) => e,
        None => t,
    }
}

fn expiry_from(t: Instant, ms: u64) -> (r: Instant)
    ensures
        r == expiry(t, ms),
{
    match later(t, ms) {
        Some(e) => e,
        None => t,
    }
}

/// Whether instant `now` is at or after instant `t` (`>=` of `Instant`,
/// which depends on the two instants alone).
pub uninterp spec fn at_or_after(now: Instant, t: Instant) -> bool;

/// Whether `t` has been reached at `now` (`Instant: PartialOrd`); the
/// result is the named comparison.
#[verifier::external_body]
fn reached(now: Instant, t: Instant) -> (r: bool)
    ensures
        r == at_or_after(now, t),
{
    now >= t
}

/// How long an information notice stays, in milliseconds.
pub const INFO_MILLIS: u64 = 2500;

/// How long an error notice stays, in milliseconds.
pub const ERROR_MILLIS: u64 = 4000;

/// A transient notice.
#[derive(Debug)]
pub struct Toast {
    pub message: String,
    /// Errors are red and stay longer.
    pub error: bool,
    pub expires_at: Instant,
}

impl Toast {
    /// An information notice that expires `INFO_MILLIS` from now.
    pub fn info(message: String) -> (r: Toast)
        ensures
            r.message@ == message@,
            !r.error,
            exists|t: Instant| r.expires_at == #[trigger] expiry(t, INFO_MILLIS),
    {
        let t = now();
        Toast { message, error: false, expires_at: expiry_from(t, INFO_MILLIS) }
    }

    /// An error notice that expires `ERROR_MILLIS` from now.
    pub fn error(message: String) -> (r: Toast)
        ensures
            r.message@ == message@,
            r.error,
            exists|t: Instant| r.expires_at == #[trigger] expiry(t, ERROR_MILLIS),
    {
        let t = now();
        Toast { message, error: true, expires_at: expiry_from(t, ERROR_MILLIS) }
    }

    /// Whether the notice is due to disappear at instant `now`: `now` is
    /// at or after the expiry.
    pub fn expired_at(&self, now: Instant) -> (r: bool)
        ensures
            r == at_or_after(now, self.expires_at),
    {
        reached(now, self.expires_at)
    }

    /// Whether the notice is due to disappear: the current instant is at
    /// or after the expiry.  Which instant the clock gave is not stated.
    pub fn expired(&self) -> (r: bool)
        ensures
            exists|t: Instant| r == #[trigger] at_or_after(t, self.expires_at),
    {
        let t = now();
        self.expired_at(t)
    }
}

} // verus!
