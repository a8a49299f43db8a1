use cleats_tui_core::apply::apply_protocol_event;
use cleats_tui_core::chunks::Reassembler;
use cleats_tui_core::events::ProtoEvent;
use cleats_tui_core::model::AppModel;

fn blank_event() -> ProtoEvent {
    ProtoEvent {
        name: None,
        run_id: None,
        job_id: None,
        task_id: None,
        status: None,
        message: None,
        queue_depth: None,
        chunk_id: None,
        chunk_index: None,
        chunk_count: None,
        chunk: None,
        raw: String::new(),
    }
}

#[test]
fn job_lifecycle_updates_map_selection_and_logs() {
    let mut model = AppModel::new("run".to_string());
    let mut chunks = Reassembler::new();

    let mut start = blank_event();
    start.name = Some("job:start".to_string());
    start.job_id = Some("job-1".to_string());
    start.raw = r#"{"event":"job:start","jobId":"job-1"}"#.to_string();
    apply_protocol_event(&mut model, &mut chunks, &start, 0);

    let mut end = blank_event();
    end.name = Some("job:end".to_string());
    end.job_id = Some("job-1".to_string());
    end.status = Some("done".to_string());
    end.raw = r#"{"event":"job:end","jobId":"job-1","status":"done"}"#.to_string();
    apply_protocol_event(&mut model, &mut chunks, &end, 0);

    assert_eq!(model.jobs.len(), 1);
    assert_eq!(model.jobs.get(&"job-1".to_string()).unwrap(), "done");
    assert_eq!(model.selected_job.as_deref(), Some("job-1"));
    assert_eq!(model.logs.len(), 2);
    assert!(model.dirty);
    assert_eq!(model.stats.processed_events, 2);
}

#[test]
fn job_end_without_status_stores_unknown() {
    let mut model = AppModel::new("run".to_string());
    let mut chunks = Reassembler::new();
    let mut end = blank_event();
    end.name = Some("job:end".to_string());
    end.job_id = Some("j".to_string());
    apply_protocol_event(&mut model, &mut chunks, &end, 0);
    assert_eq!(model.jobs.get(&"j".to_string()).unwrap(), "unknown");
}

#[test]
fn task_events_store_composite_key_and_message() {
    let mut model = AppModel::new("run".to_string());
    let mut chunks = Reassembler::new();

    let mut progress = blank_event();
    progress.name = Some("task:progress".to_string());
    progress.job_id = Some("j1".to_string());
    progress.task_id = Some("t1".to_string());
    progress.message = Some("halfway".to_string());
    apply_protocol_event(&mut model, &mut chunks, &progress, 0);
    assert_eq!(model.tasks.get(&"j1:t1".to_string()).unwrap(), "running halfway");

    let mut done = blank_event();
    done.name = Some("task:end".to_string());
    done.job_id = Some("j1".to_string());
    done.task_id = Some("t1".to_string());
    apply_protocol_event(&mut model, &mut chunks, &done, 0);
    assert_eq!(model.tasks.get(&"j1:t1".to_string()).unwrap(), "done");
}

#[test]
fn whitespace_message_is_not_appended() {
    let mut model = AppModel::new("run".to_string());
    model.update_task_status("j", "t", "running", Some("   "));
    assert_eq!(model.tasks.get(&"j:t".to_string()).unwrap(), "running");
    model.update_task_status("j", "t", "running", Some(" go "));
    assert_eq!(model.tasks.get(&"j:t".to_string()).unwrap(), "running  go ");
}

#[test]
fn task_without_task_id_uses_placeholder() {
    let mut model = AppModel::new("run".to_string());
    let mut chunks = Reassembler::new();
    let mut ev = blank_event();
    ev.name = Some("task:start".to_string());
    ev.job_id = Some("j1".to_string());
    apply_protocol_event(&mut model, &mut chunks, &ev, 0);
    assert_eq!(model.tasks.get(&"j1:task".to_string()).unwrap(), "running");
}

#[test]
fn log_event_appends_message() {
    let mut model = AppModel::new("run".to_string());
    let mut chunks = Reassembler::new();
    let mut ev = blank_event();
    ev.name = Some("log".to_string());
    ev.message = Some("hello there".to_string());
    apply_protocol_event(&mut model, &mut chunks, &ev, 0);
    assert_eq!(model.logs.back().unwrap(), "hello there");

    let mut empty = blank_event();
    empty.name = Some("log".to_string());
    apply_protocol_event(&mut model, &mut chunks, &empty, 0);
    assert_eq!(model.logs.back().unwrap(), "(empty log)");
}

#[test]
fn unknown_event_logs_name_and_raw_json() {
    let mut model = AppModel::new("run".to_string());
    let mut chunks = Reassembler::new();
    let mut ev = blank_event();
    ev.name = Some("sys:ping".to_string());
    ev.raw = r#"{"event":"sys:ping"}"#.to_string();
    apply_protocol_event(&mut model, &mut chunks, &ev, 0);
    assert_eq!(model.logs.back().unwrap(), r#"event=sys:ping {"event":"sys:ping"}"#);

    let mut nameless = blank_event();
    nameless.raw = "{}".to_string();
    apply_protocol_event(&mut model, &mut chunks, &nameless, 0);
    assert_eq!(model.logs.back().unwrap(), "event=unknown {}");
}

#[test]
fn run_id_carried_by_any_event_wins() {
    let mut model = AppModel::new("boot".to_string());
    let mut chunks = Reassembler::new();
    let mut ev = blank_event();
    ev.name = Some("log".to_string());
    ev.message = Some("m".to_string());
    ev.run_id = Some("run-7".to_string());
    apply_protocol_event(&mut model, &mut chunks, &ev, 0);
    assert_eq!(model.run_id, "run-7");
}

#[test]
fn metrics_event_folds_reported_queue_depth() {
    let mut model = AppModel::new("run".to_string());
    let mut chunks = Reassembler::new();
    let mut ev = blank_event();
    ev.name = Some("runtime:metrics".to_string());
    ev.queue_depth = Some(6);
    ev.raw = r#"{"event":"runtime:metrics","flow":{"queueDepth":6}}"#.to_string();
    apply_protocol_event(&mut model, &mut chunks, &ev, 0);
    // the ingestion depth 0 folds first (stays 0), then the reported 6
    assert_eq!(model.stats.queue_depth_ewma_milli, 6000);
    let mut again = ev.clone();
    again.queue_depth = Some(12);
    apply_protocol_event(&mut model, &mut chunks, &again, 0);
    // 6000 then sample 0: 5100; then reported 12000: (5100*85+12000*15)/100
    assert_eq!(model.stats.queue_depth_ewma_milli, (5100 * 85 + 12000 * 15) / 100);
}
