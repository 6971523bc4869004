//! Budgets per window of time. Times are nanoseconds on one monotonic clock.
use vstd::prelude::*;
use crate::limits::{
    COMMUNITY_NODE_SUBMIT_MAX_PER_WINDOW, COMMUNITY_NODE_SUBMIT_WINDOW_SECS,
    MAX_MESSAGES_PER_WINDOW, MAX_OUTBOUND_BYTES_PER_WINDOW, MAX_OUTBOUND_FRAMES_PER_WINDOW,
    MESSAGE_RATE_WINDOW_SECS, NANOS_PER_SEC, OUTBOUND_BUDGET_WINDOW_SECS,
};

verus! {

/// The time from `started` to `now`; nothing where the clock is behind.
pub open spec fn elapsed(started: u64, now: u64) -> nat {
    if now >= started {
        (now - started) as nat
    } else {
        0
    }
}

/// A window of `secs` seconds that began at `started` is over.
pub open spec fn window_over(started: u64, now: u64, secs: u64) -> bool {
    elapsed(started, now) >= secs * NANOS_PER_SEC
}

/// Decides whether a window is over.
pub fn is_window_over(started: u64, now: u64, secs: u64) -> (r: bool)
    requires
        secs * NANOS_PER_SEC <= u64::MAX,
    ensures
        r == window_over(started, now, secs),
{
    now.saturating_sub(started) >= secs * NANOS_PER_SEC
}

/// The messages that a connection sent in its current window.
#[derive(Clone, Copy, Debug, PartialEq, Eq, Structural)]
pub struct MessageRateLimiter {
    pub window_started: u64,
    pub messages: u32,
}

impl MessageRateLimiter {
    /// The limiter once a finished window has been replaced.
    pub open spec fn at(self, now: u64) -> MessageRateLimiter {
        if window_over(self.window_started, now, MESSAGE_RATE_WINDOW_SECS) {
            MessageRateLimiter { window_started: now, messages: 0 }
        } else {
            self
        }
    }

    /// The limiter after one more message.
    pub open spec fn counted(self) -> MessageRateLimiter {
        MessageRateLimiter { messages: (self.messages + 1) as u32, ..self }
    }

    pub fn new(now: u64) -> (r: Self)
        ensures
            r == (MessageRateLimiter { window_started: now, messages: 0 }),
    {
        MessageRateLimiter { window_started: now, messages: 0 }
    }

    /// Counts a message, unless the window's budget is used up.
    pub fn allow(&mut self, now: u64) -> (r: bool)
        ensures
            r == (old(self).at(now).messages < MAX_MESSAGES_PER_WINDOW),
            *final(self) == if r {
                old(self).at(now).counted()
            } else {
                old(self).at(now)
            },
            old(self).messages <= MAX_MESSAGES_PER_WINDOW ==> final(self).messages
                <= MAX_MESSAGES_PER_WINDOW,
    {
        if is_window_over(self.window_started, now, MESSAGE_RATE_WINDOW_SECS) {
            self.window_started = now;
            self.messages = 0;
        }
        if self.messages >= MAX_MESSAGES_PER_WINDOW {
            return false;
        }
        self.messages = self.messages + 1;
        true
    }
}

/// The frames and bytes that a connection was sent in its current window.
#[derive(Clone, Copy, Debug, PartialEq, Eq, Structural)]
pub struct OutboundBudget {
    pub window_started: u64,
    pub frames: u32,
    pub bytes: usize,
}

impl OutboundBudget {
    /// The budget once a finished window has been replaced.
    pub open spec fn at(self, now: u64) -> OutboundBudget {
        if window_over(self.window_started, now, OUTBOUND_BUDGET_WINDOW_SECS) {
            OutboundBudget { window_started: now, frames: 0, bytes: 0 }
        } else {
            self
        }
    }

    /// One more frame of `bytes` bytes stays within the budget.
    pub open spec fn fits(self, bytes: usize) -> bool {
        self.frames < MAX_OUTBOUND_FRAMES_PER_WINDOW && self.bytes + bytes
            <= MAX_OUTBOUND_BYTES_PER_WINDOW
    }

    /// The budget after one more frame.
    pub open spec fn counted(self, bytes: usize) -> OutboundBudget {
        OutboundBudget {
            frames: (self.frames + 1) as u32,
            bytes: (self.bytes + bytes) as usize,
            ..self
        }
    }

    pub fn new(now: u64) -> (r: Self)
        ensures
            r == (OutboundBudget { window_started: now, frames: 0, bytes: 0 }),
    {
        OutboundBudget { window_started: now, frames: 0, bytes: 0 }
    }

    /// Counts a frame, unless it would exceed the window's budget.
    pub fn allow(&mut self, bytes: usize, now: u64) -> (r: bool)
        ensures
            r == old(self).at(now).fits(bytes),
            *final(self) == if r {
                old(self).at(now).counted(bytes)
            } else {
                old(self).at(now)
            },
            old(self).frames <= MAX_OUTBOUND_FRAMES_PER_WINDOW && old(self).bytes
                <= MAX_OUTBOUND_BYTES_PER_WINDOW ==> final(self).frames
                <= MAX_OUTBOUND_FRAMES_PER_WINDOW && final(self).bytes
                <= MAX_OUTBOUND_BYTES_PER_WINDOW,
    {
        if is_window_over(self.window_started, now, OUTBOUND_BUDGET_WINDOW_SECS) {
            self.window_started = now;
            self.frames = 0;
            self.bytes = 0;
        }
        if bytes > MAX_OUTBOUND_BYTES_PER_WINDOW || self.frames >= MAX_OUTBOUND_FRAMES_PER_WINDOW
            || self.bytes > MAX_OUTBOUND_BYTES_PER_WINDOW - bytes {
            return false;
        }
        self.frames = self.frames + 1;
        self.bytes = self.bytes + bytes;
        true
    }
}

/// The submissions of one source in its current window.
#[derive(Clone, Copy, Debug, PartialEq, Eq, Structural)]
pub struct SubmitQuota {
    pub window_started: u64,
    pub submissions: u32,
}

impl View for SubmitQuota {
    type V = SubmitQuota;

    open spec fn view(&self) -> SubmitQuota {
        *self
    }
}

impl SubmitQuota {
    /// The quota once a finished window has been replaced.
    pub open spec fn at(self, now: u64) -> SubmitQuota {
        if window_over(self.window_started, now, COMMUNITY_NODE_SUBMIT_WINDOW_SECS) {
            SubmitQuota { window_started: now, submissions: 0 }
        } else {
            self
        }
    }

    /// Another submission is within the quota.
    pub open spec fn allows(self, now: u64) -> bool {
        self.at(now).submissions < COMMUNITY_NODE_SUBMIT_MAX_PER_WINDOW
    }

    /// The quota after a submission was asked for.
    pub open spec fn asked(self, now: u64) -> SubmitQuota {
        if self.allows(now) {
            SubmitQuota { submissions: (self.at(now).submissions + 1) as u32, ..self.at(now) }
        } else {
            self.at(now)
        }
    }
}

/// Counts a submission, unless the window's quota is used up.
pub fn allow_submit_quota(quota: &mut SubmitQuota, now: u64) -> (r: bool)
    ensures
        r == old(quota).allows(now),
        *final(quota) == old(quota).asked(now),
{
    if is_window_over(quota.window_started, now, COMMUNITY_NODE_SUBMIT_WINDOW_SECS) {
        quota.window_started = now;
        quota.submissions = 0;
    }
    if quota.submissions >= COMMUNITY_NODE_SUBMIT_MAX_PER_WINDOW {
        return false;
    }
    quota.submissions = quota.submissions + 1;
    true
}

} // verus!
