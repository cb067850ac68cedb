use vstd::prelude::*;
use std::sync::mpsc::{Receiver, TryRecvError};
use crate::event::Event;
use crate::registry::{publish_step, send_event, Context};

verus! {

#[verifier::external_type_specification]
#[verifier::external_body]
#[verifier::reject_recursive_types(T)]
pub struct ExReceiver<T>(Receiver<T>);

/// Poll results of the host's event loop primitive.
pub const ALOOPER_POLL_WAKE: i32 = -1;
pub const ALOOPER_POLL_CALLBACK: i32 = -2;
pub const ALOOPER_POLL_TIMEOUT: i32 = -3;
pub const ALOOPER_POLL_ERROR: i32 = -4;

/// What a non-blocking look at the completion channel of the previous
/// application thread found.
#[derive(Clone, Copy, Debug, PartialEq, Eq)]
pub enum CompletionSignal {
    /// The completion sentinel was waiting: the thread returned normally.
    Finished,
    /// Nothing was waiting and the thread still holds its end: it runs.
    StillRunning,
    /// The thread's end is gone without a sentinel: it panicked.
    Disconnected,
}

/// Relies on `std::sync::mpsc::Receiver::try_recv`: `Ok` when a value was
/// waiting, `Empty` when none was and a sender is alive, `Disconnected` when
/// none was and every sender is gone. Which one comes back depends on the
/// other thread, so nothing is promised of the result.
#[verifier::external_body]
fn check_completion(rx: &Receiver<()>) -> (s: CompletionSignal) {
    match rx.try_recv() {
        Ok(()) => CompletionSignal::Finished,
        Err(TryRecvError::Empty) => CompletionSignal::StillRunning,
        Err(TryRecvError::Disconnected) => CompletionSignal::Disconnected,
    }
}

/// `(terminated, abnormal)` for what the completion check found, `None`
/// standing for "no application thread was ever started".
pub open spec fn status_spec(signal: Option<CompletionSignal>) -> (bool, bool) {
    match signal {
        None => (true, false),
        Some(CompletionSignal::Finished) => (true, false),
        Some(CompletionSignal::StillRunning) => (false, false),
        Some(CompletionSignal::Disconnected) => (true, true),
    }
}

/// Whether the previous application thread has terminated, and whether it
/// did so abnormally. A new thread is started exactly when it has terminated.
pub fn thread_status(signal: Option<CompletionSignal>) -> (r: (bool, bool))
    ensures
        r == status_spec(signal),
{
    match signal {
        None => (true, false),
        Some(CompletionSignal::Finished) => (true, false),
        Some(CompletionSignal::StillRunning) => (false, false),
        Some(CompletionSignal::Disconnected) => (true, true),
    }
}

/// What the poll loop does after the poll primitive returned.
#[derive(Clone, Copy, Debug, PartialEq, Eq)]
pub enum PollAction {
    /// Run the pending source's processor, if any, and poll again.
    Dispatch,
    /// The event source is broken: leave the loop.
    Stop,
}

/// The loop polls again while no `Destroy` command was seen.
pub fn keep_polling(ctx: &Context) -> (r: bool)
    ensures
        r == !ctx@.shutdown,
{
    !ctx.is_shutdown()
}

/// Handles the result code of one poll: an explicit wake publishes `Wake`,
/// an error stops the loop, anything else goes on to dispatch.
pub fn after_poll(ctx: &mut Context, code: i32) -> (r: PollAction)
    requires
        old(ctx).wf(),
    ensures
        final(ctx).wf(),
        code == ALOOPER_POLL_ERROR ==> r == PollAction::Stop && final(ctx)@ == old(ctx)@,
        code == ALOOPER_POLL_WAKE ==> r == PollAction::Dispatch && publish_step(old(ctx)@, final(ctx)@, Event::Wake),
        code != ALOOPER_POLL_ERROR && code != ALOOPER_POLL_WAKE ==> r == PollAction::Dispatch && final(ctx)@ == old(ctx)@,
{
    if code == ALOOPER_POLL_ERROR {
        return PollAction::Stop;
    }
    if code == ALOOPER_POLL_WAKE {
        send_event(ctx, Event::Wake);
    }
    PollAction::Dispatch
}

/// The process-wide lifecycle state that outlives one run of the entry
/// point: the completion channel of the last application thread started.
pub struct Coordinator {
    completion: Option<Receiver<()>>,
}

impl Coordinator {
    /// An application thread was started and its completion not yet seen.
    pub closed spec fn has_previous(&self) -> bool {
        self.completion is Some
    }

    /// The state of a cold start: no application thread was ever started.
    pub fn new() -> (r: Coordinator)
        ensures
            !r.has_previous(),
    {
        Coordinator { completion: None }
    }

    /// Looks, without blocking, whether the previous application thread has
    /// terminated: `(terminated, abnormal)`. With no previous thread the
    /// answer is `(true, false)`. Once its normal completion was seen the
    /// thread is forgotten, so later looks report a normal end too.
    pub fn is_app_thread_terminated(&mut self) -> (r: (bool, bool))
        ensures
            !old(self).has_previous() ==> r == status_spec(None) && !final(self).has_previous(),
            old(self).has_previous() ==> exists|s: CompletionSignal|
                r == #[trigger] status_spec(Some(s)) && (final(self).has_previous() <==> s != CompletionSignal::Finished),
    {
        let signal = match &self.completion {
            Some(rx) => Some(check_completion(rx)),
            None => None,
        };
        if matches!(signal, Some(CompletionSignal::Finished)) {
            self.completion = None;
        }
        thread_status(signal)
    }

    /// Records the completion channel of a newly started application thread.
    pub fn app_thread_started(&mut self, completion: Receiver<()>)
        ensures
            final(self).has_previous(),
    {
        self.completion = Some(completion);
    }
}

} // verus!
