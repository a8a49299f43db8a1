//! Runtime telemetry: saturating event counters and exponentially weighted
//! moving averages. The averages smooth with weight 15/100 on the new
//! sample and are kept in thousandths (fixed point), so a queue depth of 3
//! is folded in as 3000.

use vstd::prelude::*;

verus! {

/// Interval between terminal-input polls, in milliseconds; one queued event
/// is assumed to lag by this much.
pub const INPUT_POLL_INTERVAL_MS: u64 = 20;

/// Saturating increment.
pub open spec fn inc_sat(x: u64) -> u64 {
    if x == u64::MAX {
        x
    } else {
        (x + 1) as u64
    }
}

/// Saturating product.
pub open spec fn mul_sat(x: u64, y: u64) -> u64 {
    if x * y > u64::MAX {
        u64::MAX
    } else {
        (x * y) as u64
    }
}

/// The next average: the first sample replaces a zero state; afterwards the
/// state keeps weight 85/100 and the sample gets 15/100, rounded down.
pub open spec fn ewma_next(current: u64, sample: u64) -> u64 {
    if current == 0 {
        sample
    } else {
        ((current * 85 + sample * 15) / 100) as u64
    }
}

/// A value in thousandths, saturating at the top of the range.
pub open spec fn to_milli(x: u64) -> u64 {
    mul_sat(x, 1000)
}

/// Law: after the first sample the average is a convex combination of the
/// prior state and the new sample, so it stays between the two.
pub proof fn lemma_ewma_convex(current: u64, sample: u64)
    requires
        current > 0,
    ensures
        current <= sample ==> current <= ewma_next(current, sample) <= sample,
        sample <= current ==> sample <= ewma_next(current, sample) <= current,
{
    if current <= sample {
        assert(current <= (current * 85 + sample * 15) / 100 <= sample) by (nonlinear_arith)
            requires
                0 < current <= sample,
        ;
    } else {
        assert(sample <= (current * 85 + sample * 15) / 100 <= current) by (nonlinear_arith)
            requires
                0 < sample <= current || (sample == 0 && current > 0),
        ;
    }
}

/// Counters and averages shown in the runtime pane and the telemetry
/// journal. Averages are in thousandths.
pub struct TelemetryStats {
    pub event_lag_ewma_milli: u64,
    pub render_ewma_milli: u64,
    pub queue_depth_ewma_milli: u64,
    pub dropped_chunks: u64,
    pub chunk_reassembled: u64,
    pub processed_events: u64,
}

impl TelemetryStats {
    pub fn new() -> (r: TelemetryStats)
        ensures
            r.event_lag_ewma_milli == 0,
            r.render_ewma_milli == 0,
            r.queue_depth_ewma_milli == 0,
            r.dropped_chunks == 0,
            r.chunk_reassembled == 0,
            r.processed_events == 0,
    {
        TelemetryStats {
            event_lag_ewma_milli: 0,
            render_ewma_milli: 0,
            queue_depth_ewma_milli: 0,
            dropped_chunks: 0,
            chunk_reassembled: 0,
            processed_events: 0,
        }
    }

    /// Bookkeeping for one applied (non-chunk) protocol event: count it and
    /// fold the observed ingestion queue depth into the depth and lag
    /// averages, the lag weighting each queued event with the input poll
    /// interval.
    pub fn record_event(&mut self, queue_depth: u64)
        ensures
            final(self).processed_events == inc_sat(old(self).processed_events),
            final(self).queue_depth_ewma_milli == ewma_next(
                old(self).queue_depth_ewma_milli,
                to_milli(queue_depth),
            ),
            final(self).event_lag_ewma_milli == ewma_next(
                old(self).event_lag_ewma_milli,
                to_milli(mul_sat(queue_depth, INPUT_POLL_INTERVAL_MS)),
            ),
            final(self).render_ewma_milli == old(self).render_ewma_milli,
            final(self).dropped_chunks == old(self).dropped_chunks,
            final(self).chunk_reassembled == old(self).chunk_reassembled,
    {
        self.processed_events = sat_inc(self.processed_events);
        self.queue_depth_ewma_milli = ewma_step(
            self.queue_depth_ewma_milli,
            sat_mul1000(queue_depth),
        );
        self.event_lag_ewma_milli = ewma_step(
            self.event_lag_ewma_milli,
            sat_mul1000(sat_mul(queue_depth, INPUT_POLL_INTERVAL_MS)),
        );
    }

    /// Fold an explicitly reported queue depth (a `runtime:metrics` event)
    /// into the depth average.
    pub fn fold_queue_depth(&mut self, depth: u64)
        ensures
            final(self).queue_depth_ewma_milli == ewma_next(
                old(self).queue_depth_ewma_milli,
                to_milli(depth),
            ),
            *final(self) == (TelemetryStats {
                queue_depth_ewma_milli: final(self).queue_depth_ewma_milli,
                ..*old(self)
            }),
    {
        self.queue_depth_ewma_milli = ewma_step(self.queue_depth_ewma_milli, sat_mul1000(depth));
    }

    /// Fold a measured render duration (milliseconds) into the render
    /// average.
    pub fn fold_render_ms(&mut self, render_ms: u64)
        ensures
            final(self).render_ewma_milli == ewma_next(
                old(self).render_ewma_milli,
                to_milli(render_ms),
            ),
            *final(self) == (TelemetryStats {
                render_ewma_milli: final(self).render_ewma_milli,
                ..*old(self)
            }),
    {
        self.render_ewma_milli = ewma_step(self.render_ewma_milli, sat_mul1000(render_ms));
    }

    /// Count one discarded chunk.
    pub fn note_dropped_chunk(&mut self)
        ensures
            final(self).dropped_chunks == inc_sat(old(self).dropped_chunks),
            *final(self) == (TelemetryStats {
                dropped_chunks: final(self).dropped_chunks,
                ..*old(self)
            }),
    {
        self.dropped_chunks = sat_inc(self.dropped_chunks);
    }

    /// Count one completed reassembly.
    pub fn note_reassembled(&mut self)
        ensures
            final(self).chunk_reassembled == inc_sat(old(self).chunk_reassembled),
            *final(self) == (TelemetryStats {
                chunk_reassembled: final(self).chunk_reassembled,
                ..*old(self)
            }),
    {
        self.chunk_reassembled = sat_inc(self.chunk_reassembled);
    }
}

fn sat_inc(x: u64) -> (r: u64)
    ensures
        r == inc_sat(x),
{
    if x == u64::MAX {
        x
    } else {
        x + 1
    }
}

fn sat_mul(x: u64, y: u64) -> (r: u64)
    ensures
        r == mul_sat(x, y),
{
    proof {
        assert((x as u128) * (y as u128) <= (u64::MAX as u128) * (u64::MAX as u128))
            by (nonlinear_arith)
            requires
                x <= u64::MAX && y <= u64::MAX,
        ;
    }
    let wide = (x as u128) * (y as u128);
    if wide > u64::MAX as u128 {
        proof {
            assert(x * y > u64::MAX);
        }
        u64::MAX
    } else {
        proof {
            assert(x * y <= u64::MAX);
        }
        wide as u64
    }
}

fn sat_mul1000(x: u64) -> (r: u64)
    ensures
        r == to_milli(x),
{
    sat_mul(x, 1000)
}

/// Interval between telemetry journal lines.
pub const METRICS_EMIT_INTERVAL_MS: u64 = 1000;

/// The timer that paces telemetry journal lines.
pub struct EmitGate {
    last_emit_ms: u64,
}

impl EmitGate {
    pub closed spec fn last_emit_ms(&self) -> u64 {
        self.last_emit_ms
    }

    pub fn new(now_ms: u64) -> (g: EmitGate)
        ensures
            g.last_emit_ms() == now_ms,
    {
        EmitGate { last_emit_ms: now_ms }
    }

    /// Whether a journal line is due now; a due line restarts the timer.
    pub fn should_emit(&mut self, now_ms: u64) -> (r: bool)
        ensures
            r == (crate::time_since(now_ms, old(self).last_emit_ms())
                >= METRICS_EMIT_INTERVAL_MS),
            r ==> final(self).last_emit_ms() == now_ms,
            !r ==> *final(self) == *old(self),
    {
        if crate::elapsed_ms(now_ms, self.last_emit_ms) >= METRICS_EMIT_INTERVAL_MS {
            self.last_emit_ms = now_ms;
            true
        } else {
            false
        }
    }
}

/// One smoothing step on fixed-point state and sample.
fn ewma_step(current: u64, sample: u64) -> (r: u64)
    ensures
        r == ewma_next(current, sample),
{
    if current == 0 {
        sample
    } else {
        let wide = ((current as u128) * 85 + (sample as u128) * 15) / 100;
        proof {
            lemma_ewma_convex(current, sample);
            assert(wide == (current * 85 + sample * 15) / 100);
        }
        wide as u64
    }
}

} // verus!
