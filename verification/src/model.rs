//! The authoritative UI state: jobs, tasks, logs, selection, scroll
//! cursors, the dirty flag and runtime telemetry.

use crate::keyed::{keyed_upsert, KeyedRing};
use crate::ring::{ring_push, LogRing};
use crate::telemetry::{ewma_next, to_milli, TelemetryStats};
use crate::textutil::{dec_seq, trim_of, trimmed_empty, u64_to_dec};
use crate::{JOB_RING_LIMIT, LOG_RING_LIMIT, TASK_RING_LIMIT};
use vstd::prelude::*;
use vstd::string::StringExecFns;

verus! {

/// Target render time in milliseconds; a slower frame logs a warning.
pub const FRAME_BUDGET_MS: u64 = 16;

/// The composite key a task is stored under.
pub open spec fn task_key(job_id: Seq<char>, task_id: Seq<char>) -> Seq<char> {
    job_id + ":"@ + task_id
}

/// The text stored for a task: the status, with the message appended
/// after a space when the message has substance beyond whitespace.
pub open spec fn task_text(status: Seq<char>, message: Option<Seq<char>>) -> Seq<char> {
    match message {
        Some(m) => if trim_of(m).len() != 0 {
            status + " "@ + m
        } else {
            status
        },
        None => status,
    }
}

/// The warning logged when a frame misses the render budget.
pub open spec fn budget_warning(render_ms: u64) -> Seq<char> {
    "frame budget warning: render="@ + dec_seq(render_ms as nat) + "ms budget=16ms"@
}

/// Scroll positions and selection carried across sessions.
pub struct SessionSnapshot {
    pub selected_job: Option<String>,
    pub job_scroll: usize,
    pub task_scroll: usize,
    pub log_scroll: usize,
}

/// The model: every piece of state the renderer reads.
pub struct AppModel {
    pub run_id: String,
    pub jobs: KeyedRing,
    pub tasks: KeyedRing,
    pub logs: LogRing,
    pub selected_job: Option<String>,
    pub job_scroll: usize,
    pub task_scroll: usize,
    pub log_scroll: usize,
    pub dirty: bool,
    pub stats: TelemetryStats,
}

impl AppModel {
    pub open spec fn wf(&self) -> bool {
        &&& self.jobs.wf()
        &&& self.jobs.limit() == JOB_RING_LIMIT
        &&& self.tasks.wf()
        &&& self.tasks.limit() == TASK_RING_LIMIT
        &&& self.logs.wf()
        &&& self.logs.limit() == LOG_RING_LIMIT
    }

    pub fn new(run_id: String) -> (m: AppModel)
        ensures
            m.wf(),
            m.run_id@ == run_id@,
            m.jobs@ == Seq::<(Seq<char>, Seq<char>)>::empty(),
            m.tasks@ == Seq::<(Seq<char>, Seq<char>)>::empty(),
            m.logs@ == Seq::<Seq<char>>::empty(),
            m.selected_job is None,
            m.job_scroll == 0,
            m.task_scroll == 0,
            m.log_scroll == 0,
            m.dirty == true,
            m.stats.event_lag_ewma_milli == 0,
            m.stats.render_ewma_milli == 0,
            m.stats.queue_depth_ewma_milli == 0,
            m.stats.dropped_chunks == 0,
            m.stats.chunk_reassembled == 0,
            m.stats.processed_events == 0,
    {
        AppModel {
            run_id,
            jobs: KeyedRing::new(JOB_RING_LIMIT),
            tasks: KeyedRing::new(TASK_RING_LIMIT),
            logs: LogRing::new(LOG_RING_LIMIT),
            selected_job: None,
            job_scroll: 0,
            task_scroll: 0,
            log_scroll: 0,
            dirty: true,
            stats: TelemetryStats::new(),
        }
    }

    /// Append a log line, evicting the oldest on overflow, and mark the
    /// model dirty.
    pub fn push_log(&mut self, message: String)
        requires
            old(self).wf(),
        ensures
            final(self).wf(),
            final(self).logs@ == ring_push(old(self).logs@, message@, LOG_RING_LIMIT as nat),
            final(self).dirty == true,
            final(self).run_id == old(self).run_id,
            final(self).jobs == old(self).jobs,
            final(self).tasks == old(self).tasks,
            final(self).selected_job == old(self).selected_job,
            final(self).job_scroll == old(self).job_scroll,
            final(self).task_scroll == old(self).task_scroll,
            final(self).log_scroll == old(self).log_scroll,
            final(self).stats == old(self).stats,
    {
        self.logs.push(message);
        self.dirty = true;
    }

    /// Insert or update a job's status, select that job, and mark dirty.
    pub fn update_job_status(&mut self, job_id: &str, status: &str)
        requires
            old(self).wf(),
        ensures
            final(self).wf(),
            final(self).jobs@ == keyed_upsert(
                old(self).jobs@,
                job_id@,
                status@,
                JOB_RING_LIMIT as nat,
            ),
            final(self).selected_job.deep_view() == Some(job_id@),
            final(self).dirty == true,
            final(self).run_id == old(self).run_id,
            final(self).tasks == old(self).tasks,
            final(self).logs == old(self).logs,
            final(self).job_scroll == old(self).job_scroll,
            final(self).task_scroll == old(self).task_scroll,
            final(self).log_scroll == old(self).log_scroll,
            final(self).stats == old(self).stats,
    {
        self.jobs.upsert(job_id.to_owned(), status.to_owned());
        self.selected_job = Some(job_id.to_owned());
        self.dirty = true;
    }

    /// Insert or update a task under its composite key, and mark dirty.
    pub fn update_task_status(
        &mut self,
        job_id: &str,
        task_id: &str,
        status: &str,
        message: Option<&str>,
    )
        requires
            old(self).wf(),
        ensures
            final(self).wf(),
            final(self).tasks@ == keyed_upsert(
                old(self).tasks@,
                task_key(job_id@, task_id@),
                task_text(status@, message.deep_view()),
                TASK_RING_LIMIT as nat,
            ),
            final(self).dirty == true,
            final(self).run_id == old(self).run_id,
            final(self).jobs == old(self).jobs,
            final(self).logs == old(self).logs,
            final(self).selected_job == old(self).selected_job,
            final(self).job_scroll == old(self).job_scroll,
            final(self).task_scroll == old(self).task_scroll,
            final(self).log_scroll == old(self).log_scroll,
            final(self).stats == old(self).stats,
    {
        let mut key = job_id.to_owned();
        key.append(":");
        key.append(task_id);
        let mut text = status.to_owned();
        match message {
            Some(msg) => {
                if !trimmed_empty(msg) {
                    text.append(" ");
                    text.append(msg);
                }
            },
            None => {},
        }
        proof {
            assert(key@ == task_key(job_id@, task_id@));
            assert(text@ == task_text(status@, message.deep_view()));
        }
        self.tasks.upsert(key, text);
        self.dirty = true;
    }

    /// Fold a measured render duration into the telemetry and log the
    /// frame-budget warning when the frame was too slow.
    pub fn note_render(&mut self, render_ms: u64)
        requires
            old(self).wf(),
        ensures
            final(self).wf(),
            final(self).stats.render_ewma_milli == ewma_next(
                old(self).stats.render_ewma_milli,
                to_milli(render_ms),
            ),
            final(self).stats == (TelemetryStats {
                render_ewma_milli: final(self).stats.render_ewma_milli,
                ..old(self).stats
            }),
            final(self).logs@ == if render_ms > FRAME_BUDGET_MS {
                ring_push(old(self).logs@, budget_warning(render_ms), LOG_RING_LIMIT as nat)
            } else {
                old(self).logs@
            },
            final(self).dirty == if render_ms > FRAME_BUDGET_MS {
                true
            } else {
                old(self).dirty
            },
            final(self).run_id == old(self).run_id,
            final(self).jobs == old(self).jobs,
            final(self).tasks == old(self).tasks,
            final(self).selected_job == old(self).selected_job,
            final(self).job_scroll == old(self).job_scroll,
            final(self).task_scroll == old(self).task_scroll,
            final(self).log_scroll == old(self).log_scroll,
    {
        self.stats.fold_render_ms(render_ms);
        if render_ms > FRAME_BUDGET_MS {
            let mut line = "frame budget warning: render=".to_owned();
            let rendered = u64_to_dec(render_ms);
            line.append(rendered.as_str());
            line.append("ms budget=16ms");
            proof {
                assert(line@ == budget_warning(render_ms));
            }
            self.push_log(line);
        }
    }

    /// Restore selection and scroll positions from a snapshot.
    pub fn restore_snapshot(&mut self, snapshot: SessionSnapshot)
        requires
            old(self).wf(),
        ensures
            final(self).wf(),
            final(self).selected_job == snapshot.selected_job,
            final(self).job_scroll == snapshot.job_scroll,
            final(self).task_scroll == snapshot.task_scroll,
            final(self).log_scroll == snapshot.log_scroll,
            final(self).run_id == old(self).run_id,
            final(self).jobs == old(self).jobs,
            final(self).tasks == old(self).tasks,
            final(self).logs == old(self).logs,
            final(self).dirty == old(self).dirty,
            final(self).stats == old(self).stats,
    {
        self.selected_job = snapshot.selected_job;
        self.job_scroll = snapshot.job_scroll;
        self.task_scroll = snapshot.task_scroll;
        self.log_scroll = snapshot.log_scroll;
    }

    /// The selection and scroll positions worth carrying across sessions.
    pub fn snapshot(&self) -> (s: SessionSnapshot)
        ensures
            s.selected_job == self.selected_job,
            s.job_scroll == self.job_scroll,
            s.task_scroll == self.task_scroll,
            s.log_scroll == self.log_scroll,
    {
        SessionSnapshot {
            selected_job: match &self.selected_job {
                Some(j) => Some(j.clone()),
                None => None,
            },
            job_scroll: self.job_scroll,
            task_scroll: self.task_scroll,
            log_scroll: self.log_scroll,
        }
    }
}

} // verus!
