use cleats_tui_core::apply::apply_protocol_event;
use cleats_tui_core::chunks::{FeedResult, Reassembler};
use cleats_tui_core::events::ProtoEvent;
use cleats_tui_core::model::AppModel;

fn blank_event() -> ProtoEvent {
    ProtoEvent {
        name: None,
        run_id: None,
        job_id: None,
        task_id: None,
        status: None,
        message: None,
        queue_depth: None,
        chunk_id: None,
        chunk_index: None,
        chunk_count: None,
        chunk: None,
        raw: String::new(),
    }
}

fn chunk_event(id: &str, index: u64, count: u64, part: &str) -> ProtoEvent {
    let mut ev = blank_event();
    ev.name = Some("event:chunk".to_string());
    ev.chunk_id = Some(id.to_string());
    ev.chunk_index = Some(index);
    ev.chunk_count = Some(count);
    ev.chunk = Some(part.to_string());
    ev
}

fn last_log(model: &AppModel) -> String {
    model.logs.back().expect("a log line").clone()
}

#[test]
fn chunk_reassembly_out_of_order() {
    let mut model = AppModel::new("run".to_string());
    let mut chunks = Reassembler::new();
    let payload = r#"{"event":"log","message":"hello"}"#;
    let parts = [&payload[0..11], &payload[11..22], &payload[22..]];
    for index in [2u64, 0, 1] {
        apply_protocol_event(
            &mut model,
            &mut chunks,
            &chunk_event("x", index, 3, parts[index as usize]),
            0,
        );
    }
    assert_eq!(model.stats.processed_events, 1);
    assert_eq!(model.stats.chunk_reassembled, 1);
    assert_eq!(model.stats.dropped_chunks, 0);
    assert_eq!(last_log(&model), "hello");
    assert_eq!(chunks.pending(), 0);
    assert_eq!(chunks.total_bytes(), 0);
}

#[test]
fn chunk_count_mismatch_discards_assembly() {
    let mut model = AppModel::new("run".to_string());
    let mut chunks = Reassembler::new();
    apply_protocol_event(&mut model, &mut chunks, &chunk_event("x", 0, 3, "abc"), 0);
    assert_eq!(chunks.pending(), 1);
    apply_protocol_event(&mut model, &mut chunks, &chunk_event("x", 1, 4, "def"), 0);
    assert_eq!(model.stats.dropped_chunks, 1);
    assert_eq!(model.stats.processed_events, 0);
    assert_eq!(model.stats.chunk_reassembled, 0);
    assert_eq!(chunks.pending(), 0);
    assert_eq!(model.logs.len(), 0);
}

#[test]
fn duplicate_part_leaves_byte_counter_alone() {
    let mut chunks = Reassembler::new();
    assert!(matches!(chunks.feed("x", 0, 3, "abcd"), FeedResult::Stored));
    assert_eq!(chunks.total_bytes(), 4);
    assert!(matches!(chunks.feed("x", 0, 3, "abcd"), FeedResult::Stored));
    assert_eq!(chunks.total_bytes(), 4);
    assert!(matches!(chunks.feed("x", 0, 3, "zzzz"), FeedResult::Stored));
    assert_eq!(chunks.total_bytes(), 4);
    assert_eq!(chunks.pending(), 1);
}

#[test]
fn invalid_frames_are_dropped() {
    let mut model = AppModel::new("run".to_string());
    let mut chunks = Reassembler::new();
    apply_protocol_event(&mut model, &mut chunks, &chunk_event("x", 0, 0, "a"), 0);
    apply_protocol_event(&mut model, &mut chunks, &chunk_event("x", 0, 5000, "a"), 0);
    apply_protocol_event(&mut model, &mut chunks, &chunk_event("x", 3, 3, "a"), 0);
    assert_eq!(model.stats.dropped_chunks, 3);
    assert_eq!(chunks.pending(), 0);
}

#[test]
fn chunk_missing_fields_change_nothing() {
    let mut model = AppModel::new("run".to_string());
    let mut chunks = Reassembler::new();
    let mut ev = blank_event();
    ev.name = Some("event:chunk".to_string());
    ev.chunk_id = Some("x".to_string());
    apply_protocol_event(&mut model, &mut chunks, &ev, 0);
    assert_eq!(model.stats.dropped_chunks, 0);
    assert_eq!(model.stats.processed_events, 0);
    assert_eq!(chunks.pending(), 0);
}

#[test]
fn unparseable_reassembly_counts_as_drop() {
    let mut model = AppModel::new("run".to_string());
    let mut chunks = Reassembler::new();
    apply_protocol_event(&mut model, &mut chunks, &chunk_event("x", 0, 2, "not"), 0);
    apply_protocol_event(&mut model, &mut chunks, &chunk_event("x", 1, 2, " json"), 0);
    assert_eq!(model.stats.dropped_chunks, 1);
    assert_eq!(model.stats.chunk_reassembled, 0);
    assert_eq!(model.stats.processed_events, 0);
    assert_eq!(chunks.pending(), 0);
}

#[test]
fn rebuilt_chunk_event_is_a_drop() {
    let mut model = AppModel::new("run".to_string());
    let mut chunks = Reassembler::new();
    let payload = r#"{"event":"event:chunk"}"#;
    apply_protocol_event(&mut model, &mut chunks, &chunk_event("x", 0, 1, payload), 0);
    assert_eq!(model.stats.chunk_reassembled, 1);
    assert_eq!(model.stats.dropped_chunks, 1);
    assert_eq!(model.stats.processed_events, 0);
}

#[test]
fn byte_overflow_clears_all_assemblies() {
    let mut model = AppModel::new("run".to_string());
    let mut chunks = Reassembler::new();
    let big = "x".repeat(1024 * 1024);
    apply_protocol_event(&mut model, &mut chunks, &chunk_event("a", 0, 2, &big), 0);
    apply_protocol_event(&mut model, &mut chunks, &chunk_event("b", 0, 2, &big), 0);
    assert_eq!(chunks.pending(), 2);
    let overflowing = "y".repeat(1024);
    apply_protocol_event(&mut model, &mut chunks, &chunk_event("c", 0, 2, &overflowing), 0);
    assert_eq!(chunks.pending(), 0);
    assert_eq!(chunks.total_bytes(), 0);
    assert_eq!(model.stats.dropped_chunks, 1);
    let tail = model.logs.back().unwrap().clone();
    assert_eq!(tail, "chunk overflow: cleared pending oversized payload reassembly");
}
