//! Runtime glue between a native-activity host and an application thread:
//! the event model, the subscription registry, the host callbacks that turn
//! commands and input into events, the lifecycle decisions of the poll loop,
//! and the line buffering of redirected output.

pub mod callbacks;
pub mod coordinator;
pub mod event;
pub mod laws;
pub mod log_writer;
pub mod registry;
pub mod subscriber;
pub mod targets;

pub use callbacks::{commands_callback, inputs_callback};
pub use coordinator::{after_poll, keep_polling, thread_status, CompletionSignal, Coordinator, PollAction};
pub use event::{
    command_event, AssetError, Event, InputEvent, MotionAction, Pointer, PointerSample, PointerState,
    TouchEvent, TouchEventType,
};
pub use log_writer::ToLogWriter;
pub use registry::{add_sender, add_sender_missing, send_event, set_multitouch, Context};
pub use targets::AndroidBuildTarget;
