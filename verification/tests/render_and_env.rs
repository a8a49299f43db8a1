use std::collections::VecDeque;

use cleats_tui_core::env::{caps_from_env, resolve_observability_dir, resolve_run_id,
    resolve_snapshot_path};
use cleats_tui_core::model::{AppModel, SessionSnapshot};
use cleats_tui_core::render::{controls_banner, frame_signature, job_rows, list_window,
    row_tone, sig_eq, tail_window, task_rows, RenderGate, RowTone};
use cleats_tui_core::telemetry::EmitGate;
use cleats_tui_core::textutil::u64_to_dec;

#[test]
fn unchanged_signature_draws_exactly_once() {
    let mut model = AppModel::new("run".to_string());
    let mut gate = RenderGate::new(0);
    assert!(model.dirty);
    let first = gate.plan_frame(&mut model, 50);
    assert!(first);
    assert!(!model.dirty);
    // dirty set again with no visible change: the signature gate skips it
    model.dirty = true;
    let second = gate.plan_frame(&mut model, 100);
    assert!(!second);
    assert!(!model.dirty);
    // a visible change draws again
    model.push_log("fresh".to_string());
    let third = gate.plan_frame(&mut model, 150);
    assert!(third);
}

#[test]
fn frame_gate_needs_dirty_and_interval() {
    let mut model = AppModel::new("run".to_string());
    let mut gate = RenderGate::new(0);
    assert!(!gate.plan_frame(&mut model, 49));
    assert!(model.dirty);
    assert!(gate.plan_frame(&mut model, 50));
    model.push_log("x".to_string());
    assert!(!gate.plan_frame(&mut model, 99));
    assert!(gate.plan_frame(&mut model, 149));
}

#[test]
fn signatures_compare_by_content() {
    let model = AppModel::new("run".to_string());
    let a = frame_signature(&model);
    let b = frame_signature(&model);
    assert!(sig_eq(&a, &b));
    let mut other = AppModel::new("run".to_string());
    other.push_log("line".to_string());
    let c = frame_signature(&other);
    assert!(!sig_eq(&a, &c));
}

#[test]
fn list_window_clamps_scroll_and_height() {
    let items: Vec<String> = (0..5).map(|i| format!("row-{i}")).collect();
    assert_eq!(list_window(&items, 0, 2), vec!["row-0", "row-1"]);
    assert_eq!(list_window(&items, 99, 2), vec!["row-3", "row-4"]);
    assert_eq!(list_window(&items, 1, 0), vec!["row-1"]);
    let empty: Vec<String> = Vec::new();
    assert_eq!(list_window(&empty, 0, 3), vec!["(empty)"]);
}

#[test]
fn tail_window_counts_back_from_newest() {
    let mut items: VecDeque<String> = VecDeque::new();
    for i in 0..6 {
        items.push_back(format!("l{i}"));
    }
    assert_eq!(tail_window(&items, 0, 3), vec!["l3", "l4", "l5"]);
    assert_eq!(tail_window(&items, 2, 3), vec!["l1", "l2", "l3"]);
    assert_eq!(tail_window(&items, 99, 3), Vec::<String>::new());
    let empty: VecDeque<String> = VecDeque::new();
    assert_eq!(tail_window(&empty, 0, 3), vec!["(empty)"]);
}

#[test]
fn rows_and_placeholders() {
    let mut model = AppModel::new("run".to_string());
    assert_eq!(job_rows(&model), vec!["(no jobs)"]);
    assert_eq!(task_rows(&model), vec!["(no tasks)"]);
    model.update_job_status("j1", "running");
    model.update_task_status("j1", "t1", "running", None);
    model.update_task_status("j2", "t9", "done", None);
    assert_eq!(job_rows(&model), vec!["j1  running"]);
    // j1 is selected: only its tasks show
    assert_eq!(task_rows(&model), vec!["j1:t1  running"]);
    model.selected_job = None;
    assert_eq!(
        task_rows(&model),
        vec!["j1:t1  running", "j2:t9  done"]
    );
}

#[test]
fn rows_come_out_in_key_order() {
    let mut model = AppModel::new("run".to_string());
    model.update_job_status("zeta", "running");
    model.update_job_status("alpha", "done");
    model.selected_job = None;
    assert_eq!(job_rows(&model), vec!["alpha  done", "zeta  running"]);
    model.update_task_status("zeta", "b", "running", None);
    model.update_task_status("alpha", "a", "done", None);
    model.selected_job = None;
    assert_eq!(task_rows(&model), vec!["alpha:a  done", "zeta:b  running"]);
}

#[test]
fn row_tones_follow_status_words() {
    assert_eq!(row_tone("j  done", true), RowTone::Green);
    assert_eq!(row_tone("j  failed", true), RowTone::Red);
    assert_eq!(row_tone("j  cancelled", true), RowTone::Yellow);
    assert_eq!(row_tone("j  running", true), RowTone::Blue);
    assert_eq!(row_tone("j  queued", true), RowTone::Gray);
    assert_eq!(row_tone("j  done", false), RowTone::Plain);
}

#[test]
fn banner_depends_on_unicode() {
    assert!(controls_banner(true).contains("run  [c]"));
    assert!(controls_banner(false).contains("run [c]"));
}

#[test]
fn caps_follow_environment_values() {
    let caps = caps_from_env(None, None, None, None);
    assert!(caps.color && caps.unicode && !caps.mouse && caps.alt_screen);
    let caps = caps_from_env(Some("1"), Some("0"), Some("TRUE"), Some("0"));
    assert!(!caps.color && !caps.unicode && caps.mouse && !caps.alt_screen);
    let caps = caps_from_env(Some("   "), None, Some("yes"), None);
    assert!(caps.color && !caps.mouse);
    let caps = caps_from_env(None, None, Some("1"), None);
    assert!(caps.mouse);
}

#[test]
fn run_id_override_wins_when_non_blank() {
    assert_eq!(resolve_run_id(Some("  my-run "), 5, 7), "my-run");
    assert_eq!(resolve_run_id(Some("   "), 5, 7), "run-5-7");
    assert_eq!(resolve_run_id(None, 123, 456), "run-123-456");
}

#[test]
fn paths_fall_back_to_defaults() {
    assert_eq!(
        resolve_observability_dir(None),
        ".cache/tui/install-v1/session-logs"
    );
    assert_eq!(resolve_observability_dir(Some(" /tmp/logs ")), "/tmp/logs");
    assert_eq!(resolve_snapshot_path(None), ".cache/tui/last-state.json");
    assert_eq!(resolve_snapshot_path(Some("state.json")), "state.json");
}

#[test]
fn snapshot_round_trip() {
    let mut model = AppModel::new("run".to_string());
    model.update_job_status("j1", "running");
    model.job_scroll = 3;
    model.task_scroll = 1;
    model.log_scroll = 9;
    let snap = model.snapshot();
    let mut fresh = AppModel::new("other".to_string());
    fresh.restore_snapshot(snap);
    assert_eq!(fresh.selected_job.as_deref(), Some("j1"));
    assert_eq!(fresh.job_scroll, 3);
    assert_eq!(fresh.task_scroll, 1);
    assert_eq!(fresh.log_scroll, 9);
}

#[test]
fn snapshot_restores_into_running_model() {
    let mut model = AppModel::new("run".to_string());
    let snap = SessionSnapshot {
        selected_job: None,
        job_scroll: 0,
        task_scroll: 0,
        log_scroll: 2,
    };
    model.restore_snapshot(snap);
    assert_eq!(model.log_scroll, 2);
    assert!(model.selected_job.is_none());
}

#[test]
fn emit_gate_paces_journal_lines() {
    let mut gate = EmitGate::new(0);
    assert!(!gate.should_emit(999));
    assert!(gate.should_emit(1000));
    assert!(!gate.should_emit(1500));
    assert!(gate.should_emit(2000));
}

#[test]
fn decimal_rendering_is_exact() {
    assert_eq!(u64_to_dec(0), "0");
    assert_eq!(u64_to_dec(7), "7");
    assert_eq!(u64_to_dec(1234567890), "1234567890");
    assert_eq!(u64_to_dec(u64::MAX), "18446744073709551615");
}

#[test]
fn frame_budget_warning_is_logged() {
    let mut model = AppModel::new("run".to_string());
    model.note_render(16);
    assert_eq!(model.logs.len(), 0);
    model.note_render(23);
    assert_eq!(
        model.logs.back().unwrap(),
        "frame budget warning: render=23ms budget=16ms"
    );
}

#[test]
fn render_ewma_mixes_with_fifteen_percent() {
    let mut model = AppModel::new("run".to_string());
    model.note_render(16);
    assert_eq!(model.stats.render_ewma_milli, 16000);
    model.note_render(32);
    // (16000 * 85 + 32000 * 15) / 100
    assert_eq!(model.stats.render_ewma_milli, 18400);
    model.note_render(8);
    assert_eq!(model.stats.render_ewma_milli, (18400 * 85 + 8000 * 15) / 100);
}
