//! Render scheduling and row preparation: the frame gate, the signature
//! that deduplicates draws, list and tail windows, row texts, and the
//! colour classification of job rows.

use crate::keyed::sort_entries;
use crate::model::AppModel;
use crate::textutil::{contains_str, contains_sub, is_prefix_of, has_prefix};
use crate::time_since;
use std::collections::VecDeque;
use vstd::prelude::*;
use vstd::string::StringExecFns;

verus! {

/// Minimum spacing between two draws.
pub const FRAME_INTERVAL_MS: u64 = 50;

/// The observable state a draw depends on.
pub struct FrameSignature {
    pub run_id: String,
    pub jobs: usize,
    pub tasks: usize,
    pub logs: usize,
    pub selected: String,
    pub job_scroll: usize,
    pub last_log: String,
}

/// Ghost image of a signature.
#[verifier::ext_equal]
pub ghost struct SigView {
    pub run_id: Seq<char>,
    pub jobs: nat,
    pub tasks: nat,
    pub logs: nat,
    pub selected: Seq<char>,
    pub job_scroll: nat,
    pub last_log: Seq<char>,
}

impl DeepView for FrameSignature {
    type V = SigView;

    open spec fn deep_view(&self) -> SigView {
        SigView {
            run_id: self.run_id@,
            jobs: self.jobs as nat,
            tasks: self.tasks as nat,
            logs: self.logs as nat,
            selected: self.selected@,
            job_scroll: self.job_scroll as nat,
            last_log: self.last_log@,
        }
    }
}

/// The signature the model currently shows.
pub open spec fn sig_of(m: AppModel) -> SigView {
    SigView {
        run_id: m.run_id@,
        jobs: m.jobs@.len(),
        tasks: m.tasks@.len(),
        logs: m.logs@.len(),
        selected: match m.selected_job.deep_view() {
            Some(s) => s,
            None => Seq::empty(),
        },
        job_scroll: m.job_scroll as nat,
        last_log: if m.logs@.len() == 0 {
            Seq::empty()
        } else {
            m.logs@.last()
        },
    }
}

/// Compute the model's current signature.
pub fn frame_signature(model: &AppModel) -> (sig: FrameSignature)
    ensures
        sig.deep_view() == sig_of(*model),
{
    let selected = match &model.selected_job {
        Some(s) => s.clone(),
        None => String::new(),
    };
    let last_log = match model.logs.back() {
        Some(l) => l.clone(),
        None => String::new(),
    };
    let sig = FrameSignature {
        run_id: model.run_id.clone(),
        jobs: model.jobs.len(),
        tasks: model.tasks.len(),
        logs: model.logs.len(),
        selected,
        job_scroll: model.job_scroll,
        last_log,
    };
    proof {
        assert(sig.deep_view() =~= sig_of(*model));
    }
    sig
}

/// Character-wise equality of two signatures.
pub fn sig_eq(a: &FrameSignature, b: &FrameSignature) -> (r: bool)
    ensures
        r == (a.deep_view() == b.deep_view()),
{
    let same = a.run_id == b.run_id && a.jobs == b.jobs && a.tasks == b.tasks && a.logs == b.logs
        && a.selected == b.selected && a.job_scroll == b.job_scroll && a.last_log == b.last_log;
    proof {
        if same {
            assert(a.deep_view() =~= b.deep_view());
        }
    }
    same
}

/// The frame gate and the signature of the previous draw.
pub struct RenderGate {
    last_signature: Option<FrameSignature>,
    last_frame_ms: u64,
}

/// A frame is considered only when the model is dirty and the frame
/// interval has elapsed.
pub open spec fn frame_due(g: RenderGate, m: AppModel, now_ms: u64) -> bool {
    m.dirty && time_since(now_ms, g.last_frame_ms()) >= FRAME_INTERVAL_MS
}

/// Whether a due frame actually draws: only when the signature moved.
pub open spec fn draw_decision(g: RenderGate, m: AppModel, now_ms: u64) -> bool {
    frame_due(g, m, now_ms) && g.last_sig_view() != Some(sig_of(m))
}

impl RenderGate {
    pub closed spec fn last_sig_view(&self) -> Option<SigView> {
        match self.last_signature {
            Some(s) => Some(s.deep_view()),
            None => None,
        }
    }

    pub closed spec fn last_frame_ms(&self) -> u64 {
        self.last_frame_ms
    }

    pub fn new(now_ms: u64) -> (g: RenderGate)
        ensures
            g.last_sig_view() is None,
            g.last_frame_ms() == now_ms,
    {
        RenderGate { last_signature: None, last_frame_ms: now_ms }
    }

    /// Decide whether to draw now. A due frame consumes the dirty flag
    /// and restarts the frame clock whether or not it draws; a draw
    /// records the signature it renders.
    pub fn plan_frame(&mut self, model: &mut AppModel, now_ms: u64) -> (draw: bool)
        requires
            old(model).wf(),
        ensures
            final(model).wf(),
            draw == draw_decision(*old(self), *old(model), now_ms),
            frame_due(*old(self), *old(model), now_ms) ==> final(model).dirty == false
                && final(self).last_frame_ms() == now_ms,
            !frame_due(*old(self), *old(model), now_ms) ==> *final(model) == *old(model)
                && *final(self) == *old(self),
            draw ==> final(self).last_sig_view() == Some(sig_of(*old(model))),
            !draw ==> final(self).last_sig_view() == old(self).last_sig_view(),
            final(model).run_id == old(model).run_id,
            final(model).jobs == old(model).jobs,
            final(model).tasks == old(model).tasks,
            final(model).logs == old(model).logs,
            final(model).selected_job == old(model).selected_job,
            final(model).job_scroll == old(model).job_scroll,
            final(model).task_scroll == old(model).task_scroll,
            final(model).log_scroll == old(model).log_scroll,
            final(model).stats == old(model).stats,
    {
        if !model.dirty || crate::elapsed_ms(now_ms, self.last_frame_ms) < FRAME_INTERVAL_MS {
            return false;
        }
        let sig = frame_signature(model);
        let draw = match &self.last_signature {
            Some(prev) => !sig_eq(prev, &sig),
            None => true,
        };
        if draw {
            self.last_signature = Some(sig);
        }
        model.dirty = false;
        self.last_frame_ms = now_ms;
        draw
    }
}

/// Law: a draw records the signature it rendered, and a second due frame
/// with that same signature does not draw again.
pub proof fn lemma_render_idempotent(g: RenderGate, m: AppModel, now_ms: u64)
    requires
        g.last_sig_view() == Some(sig_of(m)),
    ensures
        !draw_decision(g, m, now_ms),
{
}

/// A scrolled window of `height` rows over a list, or a placeholder row
/// for an empty list.
pub open spec fn list_window_spec(items: Seq<Seq<char>>, scroll: nat, height: nat) -> Seq<
    Seq<char>,
> {
    if items.len() == 0 {
        seq!["(empty)"@]
    } else {
        let h = if height >= 1 {
            height
        } else {
            1
        };
        let max_start = if items.len() > h {
            (items.len() - h) as nat
        } else {
            0
        };
        let start = if scroll <= max_start {
            scroll
        } else {
            max_start
        };
        let upto = if start + h <= items.len() {
            start + h
        } else {
            items.len()
        };
        items.subrange(start as int, upto as int)
    }
}

/// Rows `scroll` places down the list, one page high.
pub fn list_window(items: &[String], scroll: usize, height: usize) -> (r: Vec<String>)
    ensures
        r.deep_view() == list_window_spec(items.deep_view(), scroll as nat, height as nat),
{
    let mut out: Vec<String> = Vec::new();
    if items.len() == 0 {
        out.push("(empty)".to_owned());
        proof {
            assert(items.deep_view().len() == 0);
            assert(out.deep_view() =~= list_window_spec(
                items.deep_view(),
                scroll as nat,
                height as nat,
            ));
        }
        return out;
    }
    let safe_height = if height >= 1 {
        height
    } else {
        1
    };
    let max_start = if items.len() > safe_height {
        items.len() - safe_height
    } else {
        0
    };
    let start = if scroll <= max_start {
        scroll
    } else {
        max_start
    };
    let upto = if safe_height <= items.len() - start {
        start + safe_height
    } else {
        items.len()
    };
    let mut i = start;
    while i < upto
        invariant
            start <= i <= upto <= items@.len(),
            out.deep_view() == items.deep_view().subrange(start as int, i as int),
        decreases upto - i,
    {
        let ghost pre_out = out.deep_view();
        out.push(items[i].clone());
        proof {
            assert(out.deep_view() =~= pre_out.push(items.deep_view()[i as int]));
            assert(items.deep_view().subrange(start as int, i + 1) =~= items.deep_view().subrange(
                start as int,
                i as int,
            ).push(items.deep_view()[i as int]));
        }
        i += 1;
    }
    proof {
        assert(out.deep_view() =~= list_window_spec(
            items.deep_view(),
            scroll as nat,
            height as nat,
        ));
    }
    out
}

/// A tail window over the log ring: `scroll` counts back from the newest
/// entry, and the window shows up to `height` rows ending there.
pub open spec fn tail_window_spec(items: Seq<Seq<char>>, scroll: nat, height: nat) -> Seq<
    Seq<char>,
> {
    if items.len() == 0 {
        seq!["(empty)"@]
    } else {
        let upto = if scroll <= items.len() {
            (items.len() - scroll) as nat
        } else {
            0
        };
        let h = if height >= 1 {
            height
        } else {
            1
        };
        let start = if upto > h {
            (upto - h) as nat
        } else {
            0
        };
        items.subrange(start as int, upto as int)
    }
}

/// The newest rows, shifted back by `scroll`, one page high.
pub fn tail_window(items: &VecDeque<String>, scroll: usize, height: usize) -> (r: Vec<String>)
    ensures
        r.deep_view() == tail_window_spec(
            items@.map_values(|s: String| s@),
            scroll as nat,
            height as nat,
        ),
{
    let ghost itemsv = items@.map_values(|s: String| s@);
    let mut out: Vec<String> = Vec::new();
    let total = items.len();
    if total == 0 {
        out.push("(empty)".to_owned());
        proof {
            assert(out.deep_view() =~= tail_window_spec(itemsv, scroll as nat, height as nat));
        }
        return out;
    }
    let upto = if scroll <= total {
        total - scroll
    } else {
        0
    };
    let safe_height = if height >= 1 {
        height
    } else {
        1
    };
    let start = if upto > safe_height {
        upto - safe_height
    } else {
        0
    };
    let mut i = start;
    while i < upto
        invariant
            start <= i <= upto <= itemsv.len(),
            itemsv == items@.map_values(|s: String| s@),
            total == itemsv.len(),
            out.deep_view() == itemsv.subrange(start as int, i as int),
        decreases upto - i,
    {
        let ghost pre_out = out.deep_view();
        out.push(items[i].clone());
        proof {
            assert(out.deep_view() =~= pre_out.push(itemsv[i as int]));
            assert(itemsv.subrange(start as int, i + 1) =~= itemsv.subrange(
                start as int,
                i as int,
            ).push(itemsv[i as int]));
        }
        i += 1;
    }
    proof {
        assert(out.deep_view() =~= tail_window_spec(itemsv, scroll as nat, height as nat));
    }
    out
}

/// How a row is tinted: by the well-known status words it contains, in
/// fixed priority order, or not at all when colour is disabled.
#[derive(Clone, Copy, PartialEq, Eq, Structural, Debug)]
pub enum RowTone {
    Plain,
    Green,
    Red,
    Yellow,
    Blue,
    Gray,
}

pub open spec fn row_tone_spec(row: Seq<char>, color: bool) -> RowTone {
    if !color {
        RowTone::Plain
    } else if contains_sub(row, "done"@) {
        RowTone::Green
    } else if contains_sub(row, "failed"@) {
        RowTone::Red
    } else if contains_sub(row, "cancelled"@) {
        RowTone::Yellow
    } else if contains_sub(row, "running"@) {
        RowTone::Blue
    } else {
        RowTone::Gray
    }
}

/// Classify one row for colouring.
pub fn row_tone(row: &str, color: bool) -> (t: RowTone)
    ensures
        t == row_tone_spec(row@, color),
{
    if !color {
        RowTone::Plain
    } else if contains_str(row, "done") {
        RowTone::Green
    } else if contains_str(row, "failed") {
        RowTone::Red
    } else if contains_str(row, "cancelled") {
        RowTone::Yellow
    } else if contains_str(row, "running") {
        RowTone::Blue
    } else {
        RowTone::Gray
    }
}

/// The job pane rows, in key order, or a placeholder.
pub open spec fn job_rows_spec(jobs: Seq<(Seq<char>, Seq<char>)>) -> Seq<Seq<char>> {
    if jobs.len() == 0 {
        seq!["(no jobs)"@]
    } else {
        let sorted = sort_entries(jobs);
        Seq::new(sorted.len(), |i: int| sorted[i].0 + "  "@ + sorted[i].1)
    }
}

pub fn job_rows(model: &AppModel) -> (r: Vec<String>)
    requires
        model.wf(),
    ensures
        r.deep_view() == job_rows_spec(model.jobs@),
{
    let mut out: Vec<String> = Vec::new();
    if model.jobs.len() == 0 {
        out.push("(no jobs)".to_owned());
        proof {
            assert(out.deep_view() =~= job_rows_spec(model.jobs@));
        }
        return out;
    }
    let entries = model.jobs.sorted_entries();
    let ghost sorted = sort_entries(model.jobs@);
    let n = entries.len();
    let mut i: usize = 0;
    while i < n
        invariant
            i <= n,
            n == sorted.len(),
            entries@.map_values(|e: (String, String)| (e.0@, e.1@)) == sorted,
            out.deep_view() == Seq::new(i as nat, |k: int| sorted[k].0 + "  "@ + sorted[k].1),
        decreases n - i,
    {
        let mut row = entries[i].0.clone();
        row.append("  ");
        row.append(entries[i].1.as_str());
        let ghost pre_out = out.deep_view();
        out.push(row);
        proof {
            assert(sorted[i as int] == (entries@[i as int].0@, entries@[i as int].1@));
            assert(out.deep_view() =~= pre_out.push(sorted[i as int].0 + "  "@
                + sorted[i as int].1));
            assert(out.deep_view() =~= Seq::new((i + 1) as nat, |k: int| sorted[k].0 + "  "@
                + sorted[k].1));
        }
        i += 1;
    }
    proof {
        assert(out.deep_view() =~= job_rows_spec(model.jobs@));
    }
    out
}

/// The task pane rows: tasks under the selected job when one is set,
/// all tasks otherwise; empty panes get a placeholder.
pub open spec fn task_rows_raw(
    entries: Seq<(Seq<char>, Seq<char>)>,
    selected: Seq<char>,
) -> Seq<Seq<char>>
    decreases entries.len(),
{
    if entries.len() == 0 {
        Seq::empty()
    } else {
        let rest = task_rows_raw(entries.drop_last(), selected);
        let e = entries.last();
        if selected.len() == 0 || is_prefix_of(selected + ":"@, e.0) {
            rest.push(e.0 + "  "@ + e.1)
        } else {
            rest
        }
    }
}

pub open spec fn task_rows_spec(
    entries: Seq<(Seq<char>, Seq<char>)>,
    selected: Seq<char>,
) -> Seq<Seq<char>> {
    let raw = task_rows_raw(sort_entries(entries), selected);
    if raw.len() == 0 {
        seq!["(no tasks)"@]
    } else {
        raw
    }
}

pub fn task_rows(model: &AppModel) -> (r: Vec<String>)
    requires
        model.wf(),
    ensures
        r.deep_view() == task_rows_spec(
            model.tasks@,
            match model.selected_job.deep_view() {
                Some(s) => s,
                None => Seq::empty(),
            },
        ),
{
    let selected: String = match &model.selected_job {
        Some(s) => s.clone(),
        None => String::new(),
    };
    let ghost sel = selected@;
    let mut prefix = selected.clone();
    prefix.append(":");
    let mut out: Vec<String> = Vec::new();
    let entries = model.tasks.sorted_entries();
    let ghost sorted = sort_entries(model.tasks@);
    let n = entries.len();
    let mut i: usize = 0;
    proof {
        assert(sorted.subrange(0, 0) =~= Seq::<(Seq<char>, Seq<char>)>::empty());
    }
    while i < n
        invariant
            i <= n,
            n == sorted.len(),
            sel == selected@,
            prefix@ == sel + ":"@,
            entries@.map_values(|e: (String, String)| (e.0@, e.1@)) == sorted,
            out.deep_view() == task_rows_raw(sorted.subrange(0, i as int), sel),
        decreases n - i,
    {
        let keep = selected.unicode_len() == 0 || has_prefix(
            entries[i].0.as_str(),
            prefix.as_str(),
        );
        proof {
            assert(sorted[i as int] == (entries@[i as int].0@, entries@[i as int].1@));
        }
        if keep {
            let mut row = entries[i].0.clone();
            row.append("  ");
            row.append(entries[i].1.as_str());
            out.push(row);
        }
        proof {
            assert(sorted.subrange(0, i + 1).drop_last() =~= sorted.subrange(0, i as int));
            assert(sorted.subrange(0, i + 1).last() == sorted[i as int]);
            assert(out.deep_view() =~= task_rows_raw(sorted.subrange(0, i + 1), sel));
        }
        i += 1;
    }
    proof {
        assert(sorted.subrange(0, n as int) =~= sorted);
    }
    if out.len() == 0 {
        out.push("(no tasks)".to_owned());
        proof {
            assert(out.deep_view() =~= task_rows_spec(model.tasks@, sel));
        }
    }
    out
}

/// The controls banner, in its spaced Unicode form or the plain one.
pub fn controls_banner(unicode: bool) -> (r: &'static str)
    ensures
        unicode ==> r@
            == "PairOfCleats TUI - [r] run  [c] cancel  [q] quit  [j/k] logs  [n/m] jobs  [u/i] tasks"@,
        !unicode ==> r@
            == "PairOfCleats TUI - [r] run [c] cancel [q] quit [j/k] logs [n/m] jobs [u/i] tasks"@,
{
    if unicode {
        "PairOfCleats TUI - [r] run  [c] cancel  [q] quit  [j/k] logs  [n/m] jobs  [u/i] tasks"
    } else {
        "PairOfCleats TUI - [r] run [c] cancel [q] quit [j/k] logs [n/m] jobs [u/i] tasks"
    }
}

} // verus!
