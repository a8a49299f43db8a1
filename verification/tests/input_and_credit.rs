use cleats_tui_core::credit::CreditBank;
use cleats_tui_core::input::{command_of_key, InputCommand, InputQueue, Request};
use cleats_tui_core::model::AppModel;

#[test]
fn key_bindings_match_the_table() {
    assert!(matches!(command_of_key('q'), Some(InputCommand::Quit)));
    assert!(matches!(command_of_key('r'), Some(InputCommand::RunJob)));
    assert!(matches!(command_of_key('c'), Some(InputCommand::CancelSelected)));
    assert!(matches!(command_of_key('j'), Some(InputCommand::LogsUp)));
    assert!(matches!(command_of_key('k'), Some(InputCommand::LogsDown)));
    assert!(matches!(command_of_key('n'), Some(InputCommand::JobsUp)));
    assert!(matches!(command_of_key('m'), Some(InputCommand::JobsDown)));
    assert!(matches!(command_of_key('u'), Some(InputCommand::TasksUp)));
    assert!(matches!(command_of_key('i'), Some(InputCommand::TasksDown)));
    assert!(command_of_key('z').is_none());
    assert!(command_of_key('Q').is_none());
}

#[test]
fn identical_tokens_inside_window_coalesce() {
    let mut queue = InputQueue::new();
    queue.enqueue(InputCommand::RunJob, 'r', 100);
    queue.enqueue(InputCommand::RunJob, 'r', 139);
    assert_eq!(queue.len(), 1);
    queue.enqueue(InputCommand::RunJob, 'r', 140);
    assert_eq!(queue.len(), 2);
}

#[test]
fn different_tokens_are_not_debounced() {
    let mut queue = InputQueue::new();
    queue.enqueue(InputCommand::LogsUp, 'j', 100);
    queue.enqueue(InputCommand::LogsDown, 'k', 101);
    assert_eq!(queue.len(), 2);
}

#[test]
fn at_most_one_dispatch_per_tick() {
    let mut queue = InputQueue::new();
    let mut model = AppModel::new("run".to_string());
    queue.enqueue(InputCommand::LogsUp, 'j', 0);
    queue.enqueue(InputCommand::LogsUp, 'j', 50);
    assert_eq!(queue.len(), 2);
    let first = queue.dispatch(&mut model, 100);
    assert!(!first.quit);
    assert_eq!(queue.len(), 1);
    assert_eq!(model.log_scroll, 1);
    // a second tick inside the dispatch interval does nothing
    let second = queue.dispatch(&mut model, 120);
    assert!(second.request.is_none());
    assert_eq!(queue.len(), 1);
    assert_eq!(model.log_scroll, 1);
    // after the interval the next command goes out
    let third = queue.dispatch(&mut model, 125);
    assert!(!third.quit);
    assert_eq!(queue.len(), 0);
    assert_eq!(model.log_scroll, 2);
}

#[test]
fn quit_sends_shutdown_and_ends_the_loop() {
    let mut queue = InputQueue::new();
    let mut model = AppModel::new("run".to_string());
    queue.enqueue(InputCommand::Quit, 'q', 0);
    let outcome = queue.dispatch(&mut model, 30);
    assert!(outcome.quit);
    assert!(matches!(outcome.request, Some(Request::Shutdown)));
}

#[test]
fn run_job_allocates_sequential_ids() {
    let mut queue = InputQueue::new();
    let mut model = AppModel::new("run".to_string());
    queue.enqueue(InputCommand::RunJob, 'r', 0);
    queue.enqueue(InputCommand::RunJob, 'r', 100);
    let first = queue.dispatch(&mut model, 200);
    match first.request {
        Some(Request::RunJob { job_id }) => assert_eq!(job_id, "job-1"),
        other => panic!("unexpected {:?}", other.is_some()),
    }
    let second = queue.dispatch(&mut model, 300);
    match second.request {
        Some(Request::RunJob { job_id }) => assert_eq!(job_id, "job-2"),
        _ => panic!("expected a run request"),
    }
}

#[test]
fn cancel_needs_a_selection() {
    let mut queue = InputQueue::new();
    let mut model = AppModel::new("run".to_string());
    queue.enqueue(InputCommand::CancelSelected, 'c', 0);
    let idle = queue.dispatch(&mut model, 30);
    assert!(idle.request.is_none());

    model.update_job_status("job-9", "running");
    queue.enqueue(InputCommand::CancelSelected, 'c', 100);
    let outcome = queue.dispatch(&mut model, 130);
    match outcome.request {
        Some(Request::CancelJob { job_id }) => assert_eq!(job_id, "job-9"),
        _ => panic!("expected a cancel request"),
    }
}

#[test]
fn scroll_commands_saturate_at_zero() {
    let mut queue = InputQueue::new();
    let mut model = AppModel::new("run".to_string());
    queue.enqueue(InputCommand::JobsDown, 'm', 0);
    queue.dispatch(&mut model, 30);
    assert_eq!(model.job_scroll, 0);
    assert!(model.dirty);
}

#[test]
fn credit_flush_at_batch_threshold() {
    let mut bank = CreditBank::new(0);
    for _ in 0..64 {
        bank.accrue(1);
    }
    let sent = bank.maybe_flush(5);
    assert_eq!(sent, Some(64));
    assert_eq!(bank.maybe_flush(6), None);
}

#[test]
fn credit_flush_by_timer() {
    let mut bank = CreditBank::new(0);
    bank.accrue(3);
    assert_eq!(bank.maybe_flush(79), None);
    assert_eq!(bank.maybe_flush(80), Some(3));
    assert_eq!(bank.maybe_flush(81), None);
}

#[test]
fn no_flush_without_pending_credits() {
    let mut bank = CreditBank::new(0);
    assert_eq!(bank.maybe_flush(1000), None);
}
