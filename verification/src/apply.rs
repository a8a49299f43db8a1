//! Application of inbound protocol events to the model: the dispatch
//! table over event names, the telemetry folds done for every applied
//! event, and the chunk path that feeds the reassembler and applies a
//! rebuilt event at most one level deep.

use crate::chunks::{
    feed_outcome, feed_rebuilt, feed_table, feed_total, FeedResult, FeedStep, Reassembler,
};
use crate::events::{parse_event_text, parsed_event_of, EventView, ProtoEvent};
use crate::keyed::keyed_upsert;
use crate::model::{task_key, task_text, AppModel};
use crate::ring::ring_push;
use crate::telemetry::{ewma_next, inc_sat, mul_sat, to_milli, TelemetryStats,
    INPUT_POLL_INTERVAL_MS};
use crate::textutil::str_eq;
use crate::{JOB_RING_LIMIT, LOG_RING_LIMIT, TASK_RING_LIMIT};
use vstd::prelude::*;
use vstd::string::StringExecFns;

verus! {

/// The recognized event names are pairwise different, so exactly one
/// row of the dispatch table fires.
proof fn lemma_protocol_names_distinct()
    ensures
        "job:start"@ != "job:end"@,
        "job:spawn"@ != "job:end"@,
        "job:start"@ != "task:start"@,
        "job:start"@ != "task:progress"@,
        "job:start"@ != "task:end"@,
        "job:spawn"@ != "task:start"@,
        "job:spawn"@ != "task:progress"@,
        "job:spawn"@ != "task:end"@,
        "job:end"@ != "task:start"@,
        "job:end"@ != "task:progress"@,
        "job:end"@ != "task:end"@,
{
    reveal_strlit("job:start");
    reveal_strlit("job:spawn");
    reveal_strlit("job:end");
    reveal_strlit("task:start");
    reveal_strlit("task:progress");
    reveal_strlit("task:end");
    assert("job:start"@.len() == 9);
    assert("job:spawn"@.len() == 9);
    assert("job:end"@.len() == 7);
    assert("task:start"@.len() == 10);
    assert("task:progress"@.len() == 13);
    assert("task:end"@.len() == 8);
}

/// The event's name, with the fallback used for a nameless event.
pub open spec fn named(e: EventView) -> Seq<char> {
    match e.name {
        Some(n) => n,
        None => "unknown"@,
    }
}

/// Whether the event is a chunk frame.
pub open spec fn is_chunk_event(e: EventView) -> bool {
    e.name == Some("event:chunk"@)
}

pub open spec fn status_or(e: EventView, fallback: Seq<char>) -> Seq<char> {
    match e.status {
        Some(s) => s,
        None => fallback,
    }
}

/// Whether the event updates a job record.
pub open spec fn is_job_update(e: EventView) -> bool {
    e.job_id is Some && (named(e) == "job:start"@ || named(e) == "job:spawn"@ || named(e)
        == "job:end"@)
}

/// The status a job update stores.
pub open spec fn job_status_of(e: EventView) -> Seq<char> {
    if named(e) == "job:end"@ {
        status_or(e, "unknown"@)
    } else {
        "running"@
    }
}

/// Whether the event updates a task record.
pub open spec fn is_task_update(e: EventView) -> bool {
    e.job_id is Some && (named(e) == "task:start"@ || named(e) == "task:progress"@ || named(e)
        == "task:end"@)
}

pub open spec fn task_id_of(e: EventView) -> Seq<char> {
    match e.task_id {
        Some(t) => t,
        None => "task"@,
    }
}

pub open spec fn task_status_of(e: EventView) -> Seq<char> {
    status_or(
        e,
        if named(e) == "task:end"@ {
            "done"@
        } else {
            "running"@
        },
    )
}

/// The log line every applied event leaves behind.
pub open spec fn log_line_of(e: EventView) -> Seq<char> {
    if named(e) == "log"@ {
        match e.message {
            Some(m) => m,
            None => "(empty log)"@,
        }
    } else {
        "event="@ + named(e) + " "@ + e.raw
    }
}

/// The depth average after one applied event: the observed ingestion
/// depth is always folded in; a metrics event then folds its reported
/// depth on top.
pub open spec fn depth_ewma_after(e: EventView, prior: u64, queue_depth: u64) -> u64 {
    let folded = ewma_next(prior, to_milli(queue_depth));
    if named(e) == "runtime:metrics"@ && e.queue_depth is Some {
        ewma_next(folded, to_milli(e.queue_depth->Some_0))
    } else {
        folded
    }
}

/// Exactly how one non-chunk event transforms the model.
pub open spec fn plain_applied(
    pre: AppModel,
    post: AppModel,
    e: EventView,
    queue_depth: u64,
) -> bool {
    &&& post.run_id@ == match e.run_id {
        Some(r) => r,
        None => pre.run_id@,
    }
    &&& post.jobs@ == if is_job_update(e) {
        keyed_upsert(pre.jobs@, e.job_id->Some_0, job_status_of(e), JOB_RING_LIMIT as nat)
    } else {
        pre.jobs@
    }
    &&& post.selected_job.deep_view() == if is_job_update(e) {
        Some(e.job_id->Some_0)
    } else {
        pre.selected_job.deep_view()
    }
    &&& post.tasks@ == if is_task_update(e) {
        keyed_upsert(
            pre.tasks@,
            task_key(e.job_id->Some_0, task_id_of(e)),
            task_text(task_status_of(e), e.message),
            TASK_RING_LIMIT as nat,
        )
    } else {
        pre.tasks@
    }
    &&& post.logs@ == ring_push(pre.logs@, log_line_of(e), LOG_RING_LIMIT as nat)
    &&& post.dirty == true
    &&& post.job_scroll == pre.job_scroll
    &&& post.task_scroll == pre.task_scroll
    &&& post.log_scroll == pre.log_scroll
    &&& post.stats.processed_events == inc_sat(pre.stats.processed_events)
    &&& post.stats.queue_depth_ewma_milli == depth_ewma_after(
        e,
        pre.stats.queue_depth_ewma_milli,
        queue_depth,
    )
    &&& post.stats.event_lag_ewma_milli == ewma_next(
        pre.stats.event_lag_ewma_milli,
        to_milli(mul_sat(queue_depth, INPUT_POLL_INTERVAL_MS)),
    )
    &&& post.stats.render_ewma_milli == pre.stats.render_ewma_milli
    &&& post.stats.dropped_chunks == pre.stats.dropped_chunks
    &&& post.stats.chunk_reassembled == pre.stats.chunk_reassembled
}

/// The model with one more dropped chunk and nothing else changed.
pub open spec fn with_dropped(m: AppModel) -> AppModel {
    AppModel {
        stats: TelemetryStats { dropped_chunks: inc_sat(m.stats.dropped_chunks), ..m.stats },
        ..m
    }
}

/// The model with one more completed reassembly and nothing else changed.
pub open spec fn with_reassembled(m: AppModel) -> AppModel {
    AppModel {
        stats: TelemetryStats { chunk_reassembled: inc_sat(m.stats.chunk_reassembled), ..m.stats },
        ..m
    }
}

/// A chunk frame has all four fields.
pub open spec fn chunk_fields(e: EventView) -> bool {
    e.chunk_id is Some && e.chunk_index is Some && e.chunk_count is Some && e.chunk is Some
}

/// What the overflow path logs.
pub open spec fn overflow_log() -> Seq<char> {
    "chunk overflow: cleared pending oversized payload reassembly"@
}

/// Exactly how one chunk frame transforms the model and the reassembler.
pub open spec fn chunk_applied(
    pre: AppModel,
    post: AppModel,
    pre_table: Seq<(Seq<char>, crate::chunks::AsmView)>,
    pre_total: nat,
    post_table: Seq<(Seq<char>, crate::chunks::AsmView)>,
    post_total: nat,
    e: EventView,
    queue_depth: u64,
) -> bool {
    if !chunk_fields(e) {
        &&& post == pre
        &&& post_table == pre_table
        &&& post_total == pre_total
    } else {
        let id = e.chunk_id->Some_0;
        let idx = e.chunk_index->Some_0;
        let cnt = e.chunk_count->Some_0;
        let ch = e.chunk->Some_0;
        &&& post_table == feed_table(pre_table, pre_total, id, idx, cnt, ch)
        &&& post_total == feed_total(pre_table, pre_total, id, idx, cnt, ch)
        &&& match feed_outcome(pre_table, pre_total, id, idx, cnt, ch) {
            FeedStep::Invalid => post == with_dropped(pre),
            FeedStep::Mismatch => post == with_dropped(pre),
            FeedStep::Overflow => {
                let dropped = with_dropped(pre);
                &&& post.stats == dropped.stats
                &&& post.logs@ == ring_push(pre.logs@, overflow_log(), LOG_RING_LIMIT as nat)
                &&& post.dirty == true
                &&& post.run_id == pre.run_id
                &&& post.jobs == pre.jobs
                &&& post.tasks == pre.tasks
                &&& post.selected_job == pre.selected_job
                &&& post.job_scroll == pre.job_scroll
                &&& post.task_scroll == pre.task_scroll
                &&& post.log_scroll == pre.log_scroll
            },
            FeedStep::Stored => post == pre,
            FeedStep::Complete => {
                let text = feed_rebuilt(pre_table, id, idx, cnt, ch);
                match parsed_event_of(text) {
                    None => post == with_dropped(pre),
                    Some(rebuilt) => if is_chunk_event(rebuilt) {
                        post == with_dropped(with_reassembled(pre))
                    } else {
                        plain_applied(with_reassembled(pre), post, rebuilt, queue_depth)
                    },
                }
            },
        }
    }
}

/// Apply one non-chunk event: count it, fold the queue depth, honour a
/// carried run id, update the job or task it names, fold a reported
/// metrics depth, and leave one log line.
pub fn apply_plain(model: &mut AppModel, event: &ProtoEvent, queue_depth: u64)
    requires
        old(model).wf(),
    ensures
        final(model).wf(),
        plain_applied(*old(model), *final(model), event.deep_view(), queue_depth),
{
    proof {
        lemma_protocol_names_distinct();
    }
    model.stats.record_event(queue_depth);
    match &event.run_id {
        Some(r) => {
            model.run_id = r.clone();
        },
        None => {},
    }
    let name: &str = match &event.name {
        Some(n) => n.as_str(),
        None => "unknown",
    };
    let ghost ev = event.deep_view();
    match &event.job_id {
        Some(job) => {
            if str_eq(name, "job:start") || str_eq(name, "job:spawn") {
                proof {
                    assert(is_job_update(ev));
                    assert(named(ev) != "job:end"@);
                    assert(job_status_of(ev) == "running"@);
                    assert(!is_task_update(ev));
                }
                model.update_job_status(job.as_str(), "running");
            } else if str_eq(name, "job:end") {
                proof {
                    assert(is_job_update(ev));
                    assert(!is_task_update(ev));
                }
                let status: &str = match &event.status {
                    Some(s) => s.as_str(),
                    None => "unknown",
                };
                model.update_job_status(job.as_str(), status);
            } else if str_eq(name, "task:start") || str_eq(name, "task:progress") || str_eq(
                name,
                "task:end",
            ) {
                let task: &str = match &event.task_id {
                    Some(t) => t.as_str(),
                    None => "task",
                };
                let fallback: &str = if str_eq(name, "task:end") {
                    "done"
                } else {
                    "running"
                };
                let status: &str = match &event.status {
                    Some(s) => s.as_str(),
                    None => fallback,
                };
                let message: Option<&str> = match &event.message {
                    Some(m) => Some(m.as_str()),
                    None => None,
                };
                proof {
                    assert(is_task_update(ev));
                    assert(!is_job_update(ev));
                    assert(task_id_of(ev) == task@);
                    assert(task_status_of(ev) == status@);
                    assert(message.deep_view() == ev.message);
                }
                model.update_task_status(job.as_str(), task, status, message);
            } else {
                proof {
                    assert(!is_job_update(ev));
                    assert(!is_task_update(ev));
                }
            }
        },
        None => {
            proof {
                assert(!is_job_update(ev));
                assert(!is_task_update(ev));
            }
        },
    }
    if str_eq(name, "runtime:metrics") {
        match event.queue_depth {
            Some(depth) => {
                model.stats.fold_queue_depth(depth);
            },
            None => {},
        }
    }
    let line: String = if str_eq(name, "log") {
        match &event.message {
            Some(m) => m.clone(),
            None => "(empty log)".to_owned(),
        }
    } else {
        let mut l = "event=".to_owned();
        l.append(name);
        l.append(" ");
        l.append(event.raw.as_str());
        l
    };
    model.push_log(line);
}

/// Apply one inbound event. A chunk frame goes to the reassembler; a
/// rebuilt event is applied in its place, unless it is itself a chunk
/// frame, which counts as a drop.
pub fn apply_protocol_event(
    model: &mut AppModel,
    chunks: &mut Reassembler,
    event: &ProtoEvent,
    queue_depth: u64,
)
    requires
        old(model).wf(),
        old(chunks).wf(),
    ensures
        final(model).wf(),
        final(chunks).wf(),
        !is_chunk_event(event.deep_view()) ==> plain_applied(
            *old(model),
            *final(model),
            event.deep_view(),
            queue_depth,
        ) && final(chunks).table_v() == old(chunks).table_v() && final(chunks).total_v() == old(
            chunks,
        ).total_v(),
        is_chunk_event(event.deep_view()) ==> chunk_applied(
            *old(model),
            *final(model),
            old(chunks).table_v(),
            old(chunks).total_v(),
            final(chunks).table_v(),
            final(chunks).total_v(),
            event.deep_view(),
            queue_depth,
        ),
    {
        let is_chunk = match &event.name {
            Some(n) => str_eq(n.as_str(), "event:chunk"),
            None => false,
        };
        if !is_chunk {
            apply_plain(model, event, queue_depth);
            return ;
        }
        let id: &String = match &event.chunk_id {
            Some(v) => v,
            None => {
                return ;
            },
        };
        let idx: u64 = match event.chunk_index {
            Some(v) => v,
            None => {
                return ;
            },
        };
        let cnt: u64 = match event.chunk_count {
            Some(v) => v,
            None => {
                return ;
            },
        };
        let ch: &String = match &event.chunk {
            Some(v) => v,
            None => {
                return ;
            },
        };
        match chunks.feed(id.as_str(), idx, cnt, ch.as_str()) {
            FeedResult::Invalid => {
                model.stats.note_dropped_chunk();
            },
            FeedResult::Mismatch => {
                model.stats.note_dropped_chunk();
            },
            FeedResult::Overflow => {
                model.stats.note_dropped_chunk();
                model.push_log(
                    "chunk overflow: cleared pending oversized payload reassembly".to_owned(),
                );
            },
            FeedResult::Stored => {},
            FeedResult::Complete(text) => {
                match parse_event_text(text.as_str()) {
                    None => {
                        model.stats.note_dropped_chunk();
                    },
                    Some(rebuilt) => {
                        model.stats.note_reassembled();
                        let rebuilt_is_chunk = match &rebuilt.name {
                            Some(n) => str_eq(n.as_str(), "event:chunk"),
                            None => false,
                        };
                        if rebuilt_is_chunk {
                            model.stats.note_dropped_chunk();
                        } else {
                            apply_plain(model, &rebuilt, queue_depth);
                        }
                    },
                }
            },
        }
    }

} // verus!
