//! Input handling: key tokens become commands, identical tokens inside
//! the debounce window coalesce, and queued commands go out at most one
//! per dispatch tick.

use crate::credit::add_sat;
use crate::model::AppModel;
use crate::textutil::{dec_seq, u64_to_dec};
use crate::time_since;
use std::collections::VecDeque;
use vstd::prelude::*;
use vstd::string::StringExecFns;

verus! {

/// Identical tokens inside this window collapse to one command.
pub const INPUT_DEBOUNCE_MS: u64 = 40;

/// Minimum spacing between two dispatched commands.
pub const INPUT_DISPATCH_INTERVAL_MS: u64 = 25;

/// The closed set of commands a key can produce.
#[derive(Clone, Copy, PartialEq, Eq, Structural, Debug)]
pub enum InputCommand {
    Quit,
    RunJob,
    CancelSelected,
    LogsUp,
    LogsDown,
    JobsUp,
    JobsDown,
    TasksUp,
    TasksDown,
}

/// The command bound to a key, if any. Key releases are the caller's
/// concern; this maps pressed characters only.
pub fn command_of_key(key: char) -> (r: Option<InputCommand>)
    ensures
        r == spec_command_of_key(key),
{
    match key {
        'q' => Some(InputCommand::Quit),
        'r' => Some(InputCommand::RunJob),
        'c' => Some(InputCommand::CancelSelected),
        'j' => Some(InputCommand::LogsUp),
        'k' => Some(InputCommand::LogsDown),
        'n' => Some(InputCommand::JobsUp),
        'm' => Some(InputCommand::JobsDown),
        'u' => Some(InputCommand::TasksUp),
        'i' => Some(InputCommand::TasksDown),
        _ => None,
    }
}

pub open spec fn spec_command_of_key(key: char) -> Option<InputCommand> {
    match key {
        'q' => Some(InputCommand::Quit),
        'r' => Some(InputCommand::RunJob),
        'c' => Some(InputCommand::CancelSelected),
        'j' => Some(InputCommand::LogsUp),
        'k' => Some(InputCommand::LogsDown),
        'n' => Some(InputCommand::JobsUp),
        'm' => Some(InputCommand::JobsDown),
        'u' => Some(InputCommand::TasksUp),
        'i' => Some(InputCommand::TasksDown),
        _ => None,
    }
}

/// One outbound supervisor request.
pub enum Request {
    /// The greeting sent once at startup.
    Hello,
    /// Start a job under a freshly allocated id.
    RunJob { job_id: String },
    /// Cancel the selected job.
    CancelJob { job_id: String },
    /// Ask the supervisor to stop; the loop ends after sending it.
    Shutdown,
    /// Return credits to the supervisor.
    FlowCredit { credits: u64 },
}

/// What one dispatch tick decided.
pub struct DispatchOutcome {
    pub request: Option<Request>,
    pub quit: bool,
}

/// The queued commands, debounce state and dispatch clock.
pub struct InputQueue {
    queue: VecDeque<(u64, InputCommand)>,
    next_seq: u64,
    last_input_ms: u64,
    last_token: Option<char>,
    last_dispatch_ms: Option<u64>,
    next_job_index: u64,
}

impl View for InputQueue {
    type V = Seq<(u64, InputCommand)>;

    closed spec fn view(&self) -> Seq<(u64, InputCommand)> {
        self.queue@
    }
}

/// An arriving token is debounced when it repeats the previous token
/// within the debounce window.
pub open spec fn debounced(q: InputQueue, token: char, now_ms: u64) -> bool {
    q.last_token() == Some(token) && time_since(now_ms, q.last_input_ms()) < INPUT_DEBOUNCE_MS
}

/// An arriving token is enqueued unless it is debounced (or the sequence
/// space is exhausted, which a real session never reaches).
pub open spec fn enqueue_accepted(q: InputQueue, token: char, now_ms: u64) -> bool {
    !debounced(q, token, now_ms) && q.next_seq() < u64::MAX
}

/// Exactly how one enqueue call changes the queue state.
pub open spec fn enqueue_step(
    pre: InputQueue,
    post: InputQueue,
    command: InputCommand,
    token: char,
    now_ms: u64,
) -> bool {
    if enqueue_accepted(pre, token, now_ms) {
        &&& post@ == pre@.push((pre.next_seq(), command))
        &&& post.next_seq() == pre.next_seq() + 1
        &&& post.last_input_ms() == now_ms
        &&& post.last_token() == Some(token)
        &&& post.last_dispatch_ms() == pre.last_dispatch_ms()
        &&& post.next_job_index() == pre.next_job_index()
    } else {
        post == pre
    }
}

/// A dispatch tick acts only when a command is queued and the dispatch
/// interval has passed since the previous dispatch.
pub open spec fn dispatch_ready(q: InputQueue, now_ms: u64) -> bool {
    q@.len() > 0 && match q.last_dispatch_ms() {
        Some(t) => time_since(now_ms, t) >= INPUT_DISPATCH_INTERVAL_MS,
        None => true,
    }
}

/// The job id allocated for the `n`-th run request.
pub open spec fn job_id_text(n: u64) -> Seq<char> {
    "job-"@ + dec_seq(n as nat)
}

/// How the queue state changes on a dispatch tick.
pub open spec fn dispatch_queue_step(
    pre: InputQueue,
    post: InputQueue,
    now_ms: u64,
) -> bool {
    if dispatch_ready(pre, now_ms) {
        &&& post@ == pre@.drop_first()
        &&& post.next_seq() == pre.next_seq()
        &&& post.last_input_ms() == pre.last_input_ms()
        &&& post.last_token() == pre.last_token()
        &&& post.last_dispatch_ms() == Some(now_ms)
        &&& post.next_job_index() == if pre@[0].1 is RunJob {
            add_sat(pre.next_job_index(), 1)
        } else {
            pre.next_job_index()
        }
    } else {
        post == pre
    }
}

/// How the model changes on a dispatch tick: only the scroll commands
/// touch it.
pub open spec fn dispatch_model_step(
    pre_q: InputQueue,
    pre: AppModel,
    post: AppModel,
    now_ms: u64,
) -> bool {
    if dispatch_ready(pre_q, now_ms) && (pre_q@[0].1 is LogsUp || pre_q@[0].1 is LogsDown
        || pre_q@[0].1 is JobsUp || pre_q@[0].1 is JobsDown || pre_q@[0].1 is TasksUp
        || pre_q@[0].1 is TasksDown) {
        &&& post.log_scroll == match pre_q@[0].1 {
            InputCommand::LogsUp => if pre.log_scroll == usize::MAX {
                usize::MAX as int
            } else {
                pre.log_scroll + 1
            },
            InputCommand::LogsDown => if pre.log_scroll == 0 {
                0
            } else {
                pre.log_scroll - 1
            },
            _ => pre.log_scroll as int,
        }
        &&& post.job_scroll == match pre_q@[0].1 {
            InputCommand::JobsUp => if pre.job_scroll == usize::MAX {
                usize::MAX as int
            } else {
                pre.job_scroll + 1
            },
            InputCommand::JobsDown => if pre.job_scroll == 0 {
                0
            } else {
                pre.job_scroll - 1
            },
            _ => pre.job_scroll as int,
        }
        &&& post.task_scroll == match pre_q@[0].1 {
            InputCommand::TasksUp => if pre.task_scroll == usize::MAX {
                usize::MAX as int
            } else {
                pre.task_scroll + 1
            },
            InputCommand::TasksDown => if pre.task_scroll == 0 {
                0
            } else {
                pre.task_scroll - 1
            },
            _ => pre.task_scroll as int,
        }
        &&& post.dirty == true
        &&& post.run_id == pre.run_id
        &&& post.jobs == pre.jobs
        &&& post.tasks == pre.tasks
        &&& post.logs == pre.logs
        &&& post.selected_job == pre.selected_job
        &&& post.stats == pre.stats
    } else {
        post == pre
    }
}

/// What one dispatch tick sends, and whether the session ends.
pub open spec fn dispatch_outcome_spec(
    pre_q: InputQueue,
    pre_m: AppModel,
    r: DispatchOutcome,
    now_ms: u64,
) -> bool {
    if !dispatch_ready(pre_q, now_ms) {
        r.request is None && r.quit == false
    } else {
        match pre_q@[0].1 {
            InputCommand::Quit => r.quit == true && (r.request matches Some(req) && req
                is Shutdown),
            InputCommand::RunJob => r.quit == false && (r.request matches Some(
                Request::RunJob { job_id },
            ) && job_id@ == job_id_text(pre_q.next_job_index())),
            InputCommand::CancelSelected => r.quit == false && match pre_m.selected_job {
                Some(sel) => (r.request matches Some(Request::CancelJob { job_id }) && job_id@
                    == sel@),
                None => r.request is None,
            },
            _ => r.quit == false && r.request is None,
        }
    }
}

impl InputQueue {
    pub closed spec fn next_seq(&self) -> u64 {
        self.next_seq
    }

    pub closed spec fn last_input_ms(&self) -> u64 {
        self.last_input_ms
    }

    pub closed spec fn last_token(&self) -> Option<char> {
        self.last_token
    }

    pub closed spec fn last_dispatch_ms(&self) -> Option<u64> {
        self.last_dispatch_ms
    }

    pub closed spec fn next_job_index(&self) -> u64 {
        self.next_job_index
    }

    /// Sequence numbers in the queue are strictly increasing and below
    /// the next one to be handed out: none is ever reused.
    pub open spec fn wf(&self) -> bool {
        &&& forall|i: int, j: int| 0 <= i < j < self@.len() ==> self@[i].0 < self@[j].0
        &&& forall|i: int| 0 <= i < self@.len() ==> (#[trigger] self@[i]).0 < self.next_seq()
    }

    pub fn new() -> (q: InputQueue)
        ensures
            q.wf(),
            q@ == Seq::<(u64, InputCommand)>::empty(),
            q.next_seq() == 1,
            q.last_token() is None,
            q.last_dispatch_ms() is None,
            q.next_job_index() == 1,
    {
        InputQueue {
            queue: VecDeque::new(),
            next_seq: 1,
            last_input_ms: 0,
            last_token: None,
            last_dispatch_ms: None,
            next_job_index: 1,
        }
    }

    pub fn len(&self) -> (n: usize)
        ensures
            n == self@.len(),
    {
        self.queue.len()
    }

    /// Queue one command under a fresh sequence number, unless the token
    /// repeats inside the debounce window.
    pub fn enqueue(&mut self, command: InputCommand, token: char, now_ms: u64)
        requires
            old(self).wf(),
        ensures
            final(self).wf(),
            enqueue_step(*old(self), *final(self), command, token, now_ms),
    {
        let deb = match self.last_token {
            Some(t) => t == token && crate::elapsed_ms(now_ms, self.last_input_ms)
                < INPUT_DEBOUNCE_MS,
            None => false,
        };
        if deb || self.next_seq == u64::MAX {
            return ;
        }
        let seq = self.next_seq;
        self.next_seq = self.next_seq + 1;
        self.last_input_ms = now_ms;
        self.last_token = Some(token);
        self.queue.push_back((seq, command));
        proof {
            assert(self@ =~= old(self)@.push((seq, command)));
            assert forall|i: int, j: int| 0 <= i < j < self@.len() implies self@[i].0
                < self@[j].0 by {
                if j < self@.len() - 1 {
                    assert(self@[i] == old(self)@[i] && self@[j] == old(self)@[j]);
                } else {
                    assert(self@[i] == old(self)@[i]);
                }
            }
            assert forall|i: int| 0 <= i < self@.len() implies (#[trigger] self@[i]).0
                < self.next_seq() by {
                if i < self@.len() - 1 {
                    assert(self@[i] == old(self)@[i]);
                }
            }
        }
    }

    /// One dispatch tick: pop and act on at most one command.
    pub fn dispatch(&mut self, model: &mut AppModel, now_ms: u64) -> (r: DispatchOutcome)
        requires
            old(self).wf(),
            old(model).wf(),
        ensures
            final(self).wf(),
            final(model).wf(),
            dispatch_queue_step(*old(self), *final(self), now_ms),
            dispatch_model_step(*old(self), *old(model), *final(model), now_ms),
            dispatch_outcome_spec(*old(self), *old(model), r, now_ms),
    {
        if self.queue.len() == 0 {
            return DispatchOutcome { request: None, quit: false };
        }
        let ready = match self.last_dispatch_ms {
            Some(t) => crate::elapsed_ms(now_ms, t) >= INPUT_DISPATCH_INTERVAL_MS,
            None => true,
        };
        if !ready {
            return DispatchOutcome { request: None, quit: false };
        }
        let (_, command) = match self.queue.pop_front() {
            Some(entry) => entry,
            None => {
                return DispatchOutcome { request: None, quit: false };
            },
        };
        self.last_dispatch_ms = Some(now_ms);
        proof {
            assert(self@ =~= old(self)@.drop_first());
            assert forall|i: int, j: int| 0 <= i < j < self@.len() implies self@[i].0
                < self@[j].0 by {
                assert(self@[i] == old(self)@[i + 1] && self@[j] == old(self)@[j + 1]);
            }
            assert forall|i: int| 0 <= i < self@.len() implies (#[trigger] self@[i]).0
                < self.next_seq() by {
                assert(self@[i] == old(self)@[i + 1]);
            }
        }
        match command {
            InputCommand::Quit => DispatchOutcome { request: Some(Request::Shutdown), quit: true },
            InputCommand::RunJob => {
                let mut job_id = "job-".to_owned();
                let digits = u64_to_dec(self.next_job_index);
                job_id.append(digits.as_str());
                self.next_job_index = if self.next_job_index == u64::MAX {
                    u64::MAX
                } else {
                    self.next_job_index + 1
                };
                DispatchOutcome { request: Some(Request::RunJob { job_id }), quit: false }
            },
            InputCommand::CancelSelected => {
                match &model.selected_job {
                    Some(sel) => DispatchOutcome {
                        request: Some(Request::CancelJob { job_id: sel.clone() }),
                        quit: false,
                    },
                    None => DispatchOutcome { request: None, quit: false },
                }
            },
            InputCommand::LogsUp => {
                model.log_scroll = if model.log_scroll == usize::MAX {
                    usize::MAX
                } else {
                    model.log_scroll + 1
                };
                model.dirty = true;
                DispatchOutcome { request: None, quit: false }
            },
            InputCommand::LogsDown => {
                model.log_scroll = if model.log_scroll == 0 {
                    0
                } else {
                    model.log_scroll - 1
                };
                model.dirty = true;
                DispatchOutcome { request: None, quit: false }
            },
            InputCommand::JobsUp => {
                model.job_scroll = if model.job_scroll == usize::MAX {
                    usize::MAX
                } else {
                    model.job_scroll + 1
                };
                model.dirty = true;
                DispatchOutcome { request: None, quit: false }
            },
            InputCommand::JobsDown => {
                model.job_scroll = if model.job_scroll == 0 {
                    0
                } else {
                    model.job_scroll - 1
                };
                model.dirty = true;
                DispatchOutcome { request: None, quit: false }
            },
            InputCommand::TasksUp => {
                model.task_scroll = if model.task_scroll == usize::MAX {
                    usize::MAX
                } else {
                    model.task_scroll + 1
                };
                model.dirty = true;
                DispatchOutcome { request: None, quit: false }
            },
            InputCommand::TasksDown => {
                model.task_scroll = if model.task_scroll == 0 {
                    0
                } else {
                    model.task_scroll - 1
                };
                model.dirty = true;
                DispatchOutcome { request: None, quit: false }
            },
        }
    }
}

/// Law: two identical key events inside the debounce window produce
/// exactly one enqueued command. After an accepted enqueue of `token`,
/// the same token within the window is rejected, so the queue grew by
/// one entry across the two calls.
pub proof fn lemma_debounce_coalesces(
    pre: InputQueue,
    mid: InputQueue,
    command: InputCommand,
    token: char,
    t1: u64,
    t2: u64,
)
    requires
        enqueue_accepted(pre, token, t1),
        enqueue_step(pre, mid, command, token, t1),
        time_since(t2, t1) < INPUT_DEBOUNCE_MS,
    ensures
        !enqueue_accepted(mid, token, t2),
        mid@.len() == pre@.len() + 1,
{
}

/// Law: at most one command leaves per dispatch tick, and a second tick
/// within the dispatch interval sends nothing.
pub proof fn lemma_dispatch_rate_limit(
    pre: InputQueue,
    mid: InputQueue,
    t1: u64,
    t2: u64,
)
    requires
        dispatch_ready(pre, t1),
        dispatch_queue_step(pre, mid, t1),
        time_since(t2, t1) < INPUT_DISPATCH_INTERVAL_MS,
    ensures
        mid@.len() == pre@.len() - 1,
        !dispatch_ready(mid, t2),
{
}

} // verus!
