//! Flow-credit batching: every applied event earns the supervisor one
//! credit back; credits go out in one message when enough have pooled or
//! enough time has passed since the last flush.

use crate::time_since;
use vstd::prelude::*;

verus! {

/// Pending credits that force a flush on their own.
pub const FLOW_CREDIT_BATCH: u64 = 64;

/// A flush is due this long after the previous one even below the batch
/// size.
pub const FLOW_CREDIT_FLUSH_INTERVAL_MS: u64 = 80;

/// Credits sent once at startup to prime the pipeline.
pub const INITIAL_FLOW_CREDITS: u64 = 256;

/// Saturating sum.
pub open spec fn add_sat(a: u64, b: u64) -> u64 {
    if a + b > u64::MAX {
        u64::MAX
    } else {
        (a + b) as u64
    }
}

/// Credits owed to the supervisor and the time of the last flush.
pub struct CreditBank {
    pending: u64,
    last_flush_ms: u64,
}

/// Law (both directions): credits leave exactly when some are pending
/// and either the batch threshold is reached or the flush interval has
/// elapsed.
pub open spec fn flush_due(bank: CreditBank, now_ms: u64) -> bool {
    bank.pending() > 0 && (bank.pending() >= FLOW_CREDIT_BATCH || time_since(
        now_ms,
        bank.last_flush_ms(),
    ) >= FLOW_CREDIT_FLUSH_INTERVAL_MS)
}

impl CreditBank {
    pub closed spec fn pending(&self) -> u64 {
        self.pending
    }

    pub closed spec fn last_flush_ms(&self) -> u64 {
        self.last_flush_ms
    }

    pub fn new(now_ms: u64) -> (b: CreditBank)
        ensures
            b.pending() == 0,
            b.last_flush_ms() == now_ms,
    {
        CreditBank { pending: 0, last_flush_ms: now_ms }
    }

    /// Earn `n` credits for `n` applied events.
    pub fn accrue(&mut self, n: u64)
        ensures
            final(self).pending() == add_sat(old(self).pending(), n),
            final(self).last_flush_ms() == old(self).last_flush_ms(),
    {
        self.pending = if n > u64::MAX - self.pending {
            u64::MAX
        } else {
            self.pending + n
        };
    }

    /// The credits to send now, if a flush is due; pending resets on a
    /// flush and the clock restarts.
    pub fn maybe_flush(&mut self, now_ms: u64) -> (r: Option<u64>)
        ensures
            r == if flush_due(*old(self), now_ms) {
                Some(old(self).pending())
            } else {
                None::<u64>
            },
            flush_due(*old(self), now_ms) ==> final(self).pending() == 0
                && final(self).last_flush_ms() == now_ms,
            !flush_due(*old(self), now_ms) ==> *final(self) == *old(self),
    {
        if self.pending == 0 {
            return None;
        }
        if self.pending < FLOW_CREDIT_BATCH && crate::elapsed_ms(now_ms, self.last_flush_ms)
            < FLOW_CREDIT_FLUSH_INTERVAL_MS {
            return None;
        }
        let credits = self.pending;
        self.pending = 0;
        self.last_flush_ms = now_ms;
        Some(credits)
    }
}

} // verus!
