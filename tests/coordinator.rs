use android_glue::coordinator::{ALOOPER_POLL_CALLBACK, ALOOPER_POLL_ERROR, ALOOPER_POLL_TIMEOUT, ALOOPER_POLL_WAKE};
use android_glue::{add_sender, after_poll, thread_status, CompletionSignal, Context, Coordinator, Event, PollAction};
use std::sync::mpsc::channel;

#[test]
fn thread_status_of_each_signal() {
    assert_eq!(thread_status(None), (true, false));
    assert_eq!(thread_status(Some(CompletionSignal::Finished)), (true, false));
    assert_eq!(thread_status(Some(CompletionSignal::StillRunning)), (false, false));
    assert_eq!(thread_status(Some(CompletionSignal::Disconnected)), (true, true));
}

#[test]
fn stale_thread_detection_starts_one_thread_per_completion() {
    let mut coordinator = Coordinator::new();
    let mut started = 0;

    // Cold start: no previous thread.
    let (terminated, abnormal) = coordinator.is_app_thread_terminated();
    assert!(!abnormal);
    if terminated {
        started += 1;
    }
    let (done_tx, done_rx) = channel::<()>();
    coordinator.app_thread_started(done_rx);
    assert_eq!(started, 1);

    // Entry point again while the thread still runs: nothing is started.
    let (terminated, abnormal) = coordinator.is_app_thread_terminated();
    assert_eq!((terminated, abnormal), (false, false));

    // The thread finishes and sends its sentinel: exactly one new thread.
    done_tx.send(()).unwrap();
    drop(done_tx);
    let (terminated, abnormal) = coordinator.is_app_thread_terminated();
    assert_eq!((terminated, abnormal), (true, false));
    if terminated {
        started += 1;
    }
    let (_tx2, rx2) = channel::<()>();
    coordinator.app_thread_started(rx2);
    assert_eq!(started, 2);
    assert_eq!(coordinator.is_app_thread_terminated(), (false, false));
}

#[test]
fn finished_thread_is_reported_normal_again() {
    let mut coordinator = Coordinator::new();
    let (tx, rx) = channel::<()>();
    coordinator.app_thread_started(rx);
    tx.send(()).unwrap();
    drop(tx);
    assert_eq!(coordinator.is_app_thread_terminated(), (true, false));
    assert_eq!(coordinator.is_app_thread_terminated(), (true, false));
}

#[test]
fn panicked_thread_is_reported_abnormal() {
    let mut coordinator = Coordinator::new();
    let (tx, rx) = channel::<()>();
    coordinator.app_thread_started(rx);
    drop(tx);
    assert_eq!(coordinator.is_app_thread_terminated(), (true, true));
}

#[test]
fn wake_code_publishes_wake() {
    let mut ctx = Context::new();
    let (tx, rx) = channel();
    add_sender(&mut ctx, tx);
    assert_eq!(after_poll(&mut ctx, ALOOPER_POLL_WAKE), PollAction::Dispatch);
    assert_eq!(rx.try_recv(), Ok(Event::Wake));
    assert!(rx.try_recv().is_err());
}

#[test]
fn error_code_stops_the_loop() {
    let mut ctx = Context::new();
    assert_eq!(after_poll(&mut ctx, ALOOPER_POLL_ERROR), PollAction::Stop);
    assert_eq!(ctx.missed_count(), 0);
}

#[test]
fn other_codes_dispatch_without_events() {
    let mut ctx = Context::new();
    for code in [ALOOPER_POLL_CALLBACK, ALOOPER_POLL_TIMEOUT, 0, 3].iter() {
        assert_eq!(after_poll(&mut ctx, *code), PollAction::Dispatch);
    }
    assert_eq!(ctx.missed_count(), 0);
}
