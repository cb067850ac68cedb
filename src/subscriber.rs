use vstd::prelude::*;
use std::sync::mpsc::Sender;
use crate::event::Event;

verus! {

#[verifier::external_type_specification]
#[verifier::external_body]
#[verifier::reject_recursive_types(T)]
pub struct ExSender<T>(Sender<T>);

/// A subscriber's channel, with the record of what was handed to it.
///
/// The records change only through `send`, so `sent()` lists exactly the
/// events handed to the channel, in order, and `outcomes()` whether the
/// channel accepted each of them.
pub struct Subscriber {
    sender: Sender<Event>,
    sent: Ghost<Seq<Event>>,
    outcomes: Ghost<Seq<bool>>,
}

impl Subscriber {
    /// The events handed to the channel, oldest first.
    pub closed spec fn sent(&self) -> Seq<Event> {
        self.sent@
    }

    /// For each event of `sent()`, whether the channel accepted it.
    pub closed spec fn outcomes(&self) -> Seq<bool> {
        self.outcomes@
    }

    pub fn new(sender: Sender<Event>) -> (r: Subscriber)
        ensures
            r.sent() == Seq::<Event>::empty(),
            r.outcomes() == Seq::<bool>::empty(),
    {
        Subscriber { sender, sent: Ghost(Seq::empty()), outcomes: Ghost(Seq::empty()) }
    }

    /// Relies on `std::sync::mpsc::Sender::send`: it hands `event` to the
    /// channel without blocking, and fails only when the receiving end has
    /// been dropped. The result is recorded; whether the receiver is still
    /// there is up to the consumer, so nothing more is promised of it.
    #[verifier::external_body]
    pub fn send(&mut self, event: Event) -> (accepted: bool)
        ensures
            final(self).sent() == old(self).sent().push(event),
            final(self).outcomes() == old(self).outcomes().push(accepted),
    {
        self.sender.send(event).is_ok()
    }
}

} // verus!
