use android_glue::subscriber::Subscriber;
use android_glue::event::APP_CMD_INIT_WINDOW;
use android_glue::{add_sender, add_sender_missing, commands_callback, send_event, set_multitouch, Context, Event};
use std::sync::mpsc::{channel, TryRecvError};

fn drain(rx: &std::sync::mpsc::Receiver<Event>) -> Vec<Event> {
    let mut out = Vec::new();
    while let Ok(e) = rx.try_recv() {
        out.push(e);
    }
    out
}

#[test]
fn subscriber_receives_events_in_publish_order() {
    let mut ctx = Context::new();
    let (tx, rx) = channel();
    add_sender(&mut ctx, tx);
    let events = vec![Event::Start, Event::InitWindow, Event::KeyDown, Event::Pause, Event::Wake];
    for e in events.iter() {
        send_event(&mut ctx, *e);
    }
    assert_eq!(drain(&rx), events);
    assert_eq!(ctx.missed_count(), 0);
}

#[test]
fn every_subscriber_receives_every_event() {
    let mut ctx = Context::new();
    let (tx1, rx1) = channel();
    let (tx2, rx2) = channel();
    add_sender(&mut ctx, tx1);
    add_sender(&mut ctx, tx2);
    send_event(&mut ctx, Event::Resume);
    send_event(&mut ctx, Event::Stop);
    assert_eq!(drain(&rx1), vec![Event::Resume, Event::Stop]);
    assert_eq!(drain(&rx2), vec![Event::Resume, Event::Stop]);
    assert_eq!(ctx.subscriber_count(), 2);
}

#[test]
fn missed_events_are_capped_and_replayed_to_first_subscriber_only() {
    let mut ctx = Context::with_missed_capacity(3);
    let events = vec![Event::Start, Event::Resume, Event::InitWindow, Event::GainedFocus, Event::Pause];
    for e in events.iter() {
        send_event(&mut ctx, *e);
    }
    assert_eq!(ctx.missed_count(), 3);
    assert_eq!(ctx.missed_events().clone(), vec![Event::Start, Event::Resume, Event::InitWindow]);

    let (tx1, rx1) = channel();
    add_sender_missing(&mut ctx, tx1);
    assert_eq!(drain(&rx1), vec![Event::Start, Event::Resume, Event::InitWindow]);
    assert_eq!(ctx.missed_count(), 0);

    let (tx2, rx2) = channel();
    add_sender_missing(&mut ctx, tx2);
    assert_eq!(rx2.try_recv(), Err(TryRecvError::Empty));

    send_event(&mut ctx, Event::Stop);
    assert_eq!(drain(&rx1), vec![Event::Stop]);
    assert_eq!(drain(&rx2), vec![Event::Stop]);
}

#[test]
fn default_missed_capacity_holds_1024_events() {
    let mut ctx = Context::new();
    for _ in 0..1024 {
        send_event(&mut ctx, Event::Wake);
    }
    send_event(&mut ctx, Event::Destroy);
    send_event(&mut ctx, Event::Stop);
    assert_eq!(ctx.missed_count(), 1024);
    let (tx, rx) = channel();
    add_sender_missing(&mut ctx, tx);
    let got = drain(&rx);
    assert_eq!(got.len(), 1024);
    assert!(got.iter().all(|e| *e == Event::Wake));
}

#[test]
fn plain_subscribe_does_not_replay() {
    let mut ctx = Context::new();
    commands_callback(&mut ctx, APP_CMD_INIT_WINDOW);
    let (tx, rx) = channel();
    add_sender(&mut ctx, tx);
    assert_eq!(rx.try_recv(), Err(TryRecvError::Empty));
    assert_eq!(ctx.missed_count(), 1);
    send_event(&mut ctx, Event::Resume);
    assert_eq!(drain(&rx), vec![Event::Resume]);
}

#[test]
fn replay_with_empty_buffer_sends_nothing() {
    let mut ctx = Context::new();
    let (tx, rx) = channel();
    add_sender_missing(&mut ctx, tx);
    assert_eq!(rx.try_recv(), Err(TryRecvError::Empty));
    assert_eq!(ctx.subscriber_count(), 1);
}

#[test]
fn disconnected_subscriber_is_pruned_on_publish() {
    let mut ctx = Context::new();
    let (tx1, rx1) = channel();
    let (tx2, rx2) = channel();
    add_sender(&mut ctx, tx1);
    add_sender(&mut ctx, tx2);
    drop(rx1);
    assert_eq!(ctx.subscriber_count(), 2);
    send_event(&mut ctx, Event::LowMemory);
    assert_eq!(ctx.subscriber_count(), 1);
    assert_eq!(drain(&rx2), vec![Event::LowMemory]);
    send_event(&mut ctx, Event::Pause);
    assert_eq!(drain(&rx2), vec![Event::Pause]);
}

#[test]
fn all_subscribers_gone_sends_later_events_nowhere() {
    let mut ctx = Context::new();
    let (tx, rx) = channel();
    add_sender(&mut ctx, tx);
    drop(rx);
    send_event(&mut ctx, Event::Start);
    assert_eq!(ctx.subscriber_count(), 0);
    assert_eq!(ctx.missed_count(), 0);
    send_event(&mut ctx, Event::Resume);
    assert_eq!(ctx.missed_count(), 1);
}

#[test]
fn multitouch_setting_is_recorded() {
    let mut ctx = Context::new();
    assert!(!ctx.multitouch());
    set_multitouch(&mut ctx, true);
    assert!(ctx.multitouch());
    set_multitouch(&mut ctx, false);
    assert!(!ctx.multitouch());
}

#[test]
fn fresh_context_state() {
    let ctx = Context::new();
    assert!(!ctx.is_shutdown());
    assert_eq!(ctx.primary_pointer_id(), 0);
    assert_eq!(ctx.subscriber_count(), 0);
    assert_eq!(ctx.missed_count(), 0);
}

#[test]
fn subscriber_send_reports_whether_the_channel_accepted() {
    let (tx, rx) = channel();
    let mut sub = Subscriber::new(tx);
    assert!(sub.send(Event::Start));
    assert_eq!(rx.try_recv(), Ok(Event::Start));
    drop(rx);
    assert!(!sub.send(Event::Stop));
}

#[test]
fn refused_replay_subscriber_is_pruned_at_next_publish() {
    let mut ctx = Context::new();
    send_event(&mut ctx, Event::Start);
    let (tx, rx) = channel();
    drop(rx);
    add_sender_missing(&mut ctx, tx);
    assert_eq!(ctx.subscriber_count(), 1);
    assert_eq!(ctx.missed_count(), 0);
    send_event(&mut ctx, Event::Resume);
    assert_eq!(ctx.subscriber_count(), 0);
}

#[test]
fn pruning_keeps_survivors_in_order() {
    let mut ctx = Context::new();
    let (tx1, rx1) = channel();
    let (tx2, rx2) = channel();
    let (tx3, rx3) = channel();
    add_sender(&mut ctx, tx1);
    add_sender(&mut ctx, tx2);
    add_sender(&mut ctx, tx3);
    drop(rx2);
    send_event(&mut ctx, Event::Pause);
    assert_eq!(ctx.subscriber_count(), 2);
    assert_eq!(drain(&rx1), vec![Event::Pause]);
    assert_eq!(drain(&rx3), vec![Event::Pause]);
}
