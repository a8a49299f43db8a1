//! Core state machines of a terminal front-end that drives a background
//! supervisor over a newline-delimited JSON protocol: bounded ring buffers,
//! chunk reassembly, protocol event application, input debouncing and
//! dispatch, render scheduling, flow-credit batching and telemetry folding.
//!
//! Everything here is pure state-machine logic over plain values; reading
//! the terminal, spawning the supervisor and writing to its stdin live in
//! the surrounding binary.

pub mod apply;
pub mod chunks;
pub mod credit;
pub mod env;
pub mod events;
pub mod input;
pub mod keyed;
pub mod model;
pub mod render;
pub mod ring;
pub mod telemetry;
pub mod textutil;

use vstd::prelude::*;

verus! {

/// Milliseconds from `then` to `now` on a wall clock, zero if the clock
/// stepped backwards.
pub open spec fn time_since(now_ms: u64, then_ms: u64) -> u64 {
    if now_ms >= then_ms {
        (now_ms - then_ms) as u64
    } else {
        0
    }
}

/// Executable counterpart of [`time_since`].
pub fn elapsed_ms(now_ms: u64, then_ms: u64) -> (r: u64)
    ensures
        r == time_since(now_ms, then_ms),
{
    if now_ms >= then_ms {
        now_ms - then_ms
    } else {
        0
    }
}

/// Upper bound on retained log lines.
pub const LOG_RING_LIMIT: usize = 2048;

/// Upper bound on tracked jobs.
pub const JOB_RING_LIMIT: usize = 512;

/// Upper bound on tracked tasks.
pub const TASK_RING_LIMIT: usize = 2048;

} // verus!
