use vstd::prelude::*;
use std::sync::mpsc::Sender;
use crate::event::Event;
use crate::subscriber::Subscriber;

verus! {

/// Number of events kept for the first subscriber when none is registered.
pub const DEFAULT_MISSED_CAPACITY: usize = 1024;

/// The mathematical state of a registry.
///
/// Every subscriber gets an identity when it registers; `subscribers` lists
/// the registered ones in delivery order. `delivered` maps each identity
/// ever handed out to the events handed to its channel, in order, and
/// `accepted` to what the channel answered each time. For a registered
/// subscriber both are the records of its `Subscriber`, which only its
/// `send` extends.
pub struct ContextView {
    pub subscribers: Seq<nat>,
    pub delivered: Map<nat, Seq<Event>>,
    pub accepted: Map<nat, Seq<bool>>,
    pub next_id: nat,
    pub missed: Seq<Event>,
    pub capacity: nat,
    pub shutdown: bool,
    pub multitouch: bool,
    pub primary_pointer_id: i32,
}

impl ContextView {
    pub open spec fn wf(self) -> bool {
        &&& self.subscribers.no_duplicates()
        &&& forall|i: int| 0 <= i < self.subscribers.len()
            ==> #[trigger] self.delivered.dom().contains(self.subscribers[i])
        &&& forall|id: nat| #[trigger] self.delivered.dom().contains(id) ==> id < self.next_id
        &&& forall|i: int| 0 <= i < self.subscribers.len()
            ==> #[trigger] self.accepted.dom().contains(self.subscribers[i])
        &&& self.missed.len() <= self.capacity
    }

    /// A fresh registry whose missed-event buffer holds up to `capacity` events.
    pub open spec fn initial(capacity: nat) -> ContextView {
        ContextView {
            subscribers: Seq::empty(),
            delivered: Map::empty(),
            accepted: Map::empty(),
            next_id: 0,
            missed: Seq::empty(),
            capacity,
            shutdown: false,
            multitouch: false,
            primary_pointer_id: 0,
        }
    }

    /// The same registry with other subscribers, deliveries, answers and
    /// missed events.
    pub open spec fn with_traffic(
        self,
        subscribers: Seq<nat>,
        delivered: Map<nat, Seq<Event>>,
        accepted: Map<nat, Seq<bool>>,
        missed: Seq<Event>,
    ) -> ContextView {
        ContextView { subscribers, delivered, accepted, missed, ..self }
    }
}

/// The elements of `s` whose flag in `keep` is set, in order.
pub open spec fn retain(s: Seq<nat>, keep: Seq<bool>) -> Seq<nat>
    decreases s.len(),
{
    if s.len() == 0 {
        Seq::empty()
    } else {
        let r = retain(s.drop_last(), keep.drop_last());
        if keep.last() {
            r.push(s.last())
        } else {
            r
        }
    }
}

/// `d` after `e` was handed to each of `subs`.
pub open spec fn handed(d: Map<nat, Seq<Event>>, subs: Seq<nat>, e: Event) -> Map<nat, Seq<Event>> {
    Map::new(
        |id: nat| d.dom().contains(id),
        |id: nat|
            if subs.contains(id) {
                d[id].push(e)
            } else {
                d[id]
            },
    )
}

/// The last answer recorded in `b` for each of `subs`.
pub open spec fn last_answers(b: ContextView, subs: Seq<nat>) -> Seq<bool> {
    Seq::new(subs.len(), |i: int| b.accepted[subs[i]].last())
}

/// One publication of `e` takes `a` to `b`. With no subscriber the event is
/// kept while the buffer has room, and dropped otherwise. With subscribers
/// it is handed to each of them in order, each records one more answer, and
/// exactly those whose channel refused it are no longer registered; the
/// others stay, in order. What a channel answers is up to its consumer.
pub open spec fn publish_step(a: ContextView, b: ContextView, e: Event) -> bool {
    if a.subscribers.len() == 0 {
        b == a.with_traffic(
            a.subscribers,
            a.delivered,
            a.accepted,
            if a.missed.len() < a.capacity {
                a.missed.push(e)
            } else {
                a.missed
            },
        )
    } else {
        &&& b == a.with_traffic(
            retain(a.subscribers, last_answers(b, a.subscribers)),
            handed(a.delivered, a.subscribers, e),
            b.accepted,
            a.missed,
        )
        &&& b.accepted.dom() == a.accepted.dom()
        &&& forall|id: nat| #[trigger] b.accepted.dom().contains(id) ==> b.accepted[id] == (
            if a.subscribers.contains(id) {
                a.accepted[id].push(b.accepted[id].last())
            } else {
                a.accepted[id]
            })
    }
}

/// `ms` lists the states that publishing `es` one after another passes
/// through, from `a` to `b`.
pub open spec fn is_trace(ms: Seq<ContextView>, a: ContextView, b: ContextView, es: Seq<Event>) -> bool {
    &&& ms.len() == es.len() + 1
    &&& ms[0] == a
    &&& ms.last() == b
    &&& forall|k: int| 0 <= k < es.len() ==> #[trigger] publish_step(ms[k], ms[k + 1], es[k])
}

/// Publishing the events `es` one after another takes `a` to `b`.
pub open spec fn published(a: ContextView, b: ContextView, es: Seq<Event>) -> bool {
    exists|ms: Seq<ContextView>| #[trigger] is_trace(ms, a, b, es)
}

/// Nothing published leaves the registry as it was.
pub proof fn lemma_published_empty(a: ContextView)
    ensures
        published(a, a, Seq::empty()),
{
    assert(is_trace(seq![a], a, a, Seq::empty()));
}

/// Publishing `es` and then `e` is publishing `es.push(e)`.
pub proof fn lemma_published_push(a: ContextView, m: ContextView, b: ContextView, es: Seq<Event>, e: Event)
    requires
        published(a, m, es),
        publish_step(m, b, e),
    ensures
        published(a, b, es.push(e)),
{
    let ms = choose|ms: Seq<ContextView>| is_trace(ms, a, m, es);
    let ms2 = ms.push(b);
    let es2 = es.push(e);
    assert forall|k: int| 0 <= k < es2.len() implies #[trigger] publish_step(ms2[k], ms2[k + 1], es2[k]) by {
        if k < es.len() {
            assert(publish_step(ms[k], ms[k + 1], es[k]));
        }
    }
    assert(is_trace(ms2, a, b, es2));
}

/// `b` is `a` with one more subscriber, which was handed `replayed`.
pub open spec fn subscribed(a: ContextView, b: ContextView, replayed: Seq<Event>) -> bool {
    &&& b.subscribers == a.subscribers.push(a.next_id)
    &&& b.delivered == a.delivered.insert(a.next_id, replayed)
    &&& b.accepted == a.accepted.insert(a.next_id, b.accepted[a.next_id])
    &&& b.accepted[a.next_id].len() == replayed.len()
    &&& b.next_id == a.next_id + 1
    &&& b.capacity == a.capacity
    &&& b.shutdown == a.shutdown
    &&& b.multitouch == a.multitouch
    &&& b.primary_pointer_id == a.primary_pointer_id
}

/// Registering a subscriber without replay.
pub open spec fn subscribe_step(a: ContextView, b: ContextView) -> bool {
    subscribed(a, b, Seq::empty()) && b.missed == a.missed
}

/// Registering a subscriber with replay: the first subscriber is handed the
/// missed events in order and the buffer is emptied; a later one is
/// registered without replay.
pub open spec fn subscribe_replay_step(a: ContextView, b: ContextView) -> bool {
    if a.subscribers.len() == 0 {
        subscribed(a, b, a.missed) && b.missed == Seq::<Event>::empty()
    } else {
        subscribe_step(a, b)
    }
}

pub proof fn lemma_retain_subset(s: Seq<nat>, keep: Seq<bool>)
    ensures
        forall|x: nat| retain(s, keep).contains(x) ==> s.contains(x),
        retain(s, keep).len() <= s.len(),
    decreases s.len(),
{
    if s.len() > 0 {
        lemma_retain_subset(s.drop_last(), keep.drop_last());
        assert forall|x: nat| retain(s, keep).contains(x) implies s.contains(x) by {
            if s.drop_last().contains(x) {
                let j = choose|j: int| 0 <= j < s.drop_last().len() && s.drop_last()[j] == x;
                assert(s[j] == x);
            } else {
                assert(s[s.len() - 1] == x);
            }
        }
    }
}

/// An element kept by `retain` stands in `s` at a position whose flag is set.
pub proof fn lemma_retain_kept(s: Seq<nat>, keep: Seq<bool>, x: nat)
    requires
        keep.len() == s.len(),
        retain(s, keep).contains(x),
    ensures
        exists|i: int| 0 <= i < s.len() && s[i] == x && keep[i],
    decreases s.len(),
{
    let r = retain(s.drop_last(), keep.drop_last());
    if r.contains(x) {
        lemma_retain_kept(s.drop_last(), keep.drop_last(), x);
        let i = choose|i: int| 0 <= i < s.drop_last().len() && s.drop_last()[i] == x && keep.drop_last()[i];
        assert(s[i] == x && keep[i]);
    } else {
        let j = choose|j: int| 0 <= j < retain(s, keep).len() && retain(s, keep)[j] == x;
        if keep.last() {
            assert(j == r.len()) by {
                if j < r.len() {
                    assert(r[j] == x);
                }
            }
            assert(s[s.len() - 1] == x && keep[s.len() - 1]);
        } else {
            assert(r[j] == x);
        }
    }
}

/// An element of `s` at a position whose flag is set is kept by `retain`.
pub proof fn lemma_retain_keeps(s: Seq<nat>, keep: Seq<bool>, i: int)
    requires
        keep.len() == s.len(),
        0 <= i < s.len(),
        keep[i],
    ensures
        retain(s, keep).contains(s[i]),
    decreases s.len(),
{
    let r = retain(s.drop_last(), keep.drop_last());
    if i == s.len() - 1 {
        assert(retain(s, keep)[r.len() as int] == s[i]);
    } else {
        lemma_retain_keeps(s.drop_last(), keep.drop_last(), i);
        let j = choose|j: int| 0 <= j < r.len() && r[j] == s.drop_last()[i];
        if keep.last() {
            assert(retain(s, keep)[j] == s[i]);
        }
    }
}

pub proof fn lemma_retain_no_duplicates(s: Seq<nat>, keep: Seq<bool>)
    requires
        s.no_duplicates(),
    ensures
        retain(s, keep).no_duplicates(),
    decreases s.len(),
{
    if s.len() > 0 {
        let r = retain(s.drop_last(), keep.drop_last());
        assert(s.drop_last().no_duplicates());
        lemma_retain_no_duplicates(s.drop_last(), keep.drop_last());
        lemma_retain_subset(s.drop_last(), keep.drop_last());
        if keep.last() {
            assert(!s.drop_last().contains(s.last())) by {
                if s.drop_last().contains(s.last()) {
                    let j = choose|j: int| 0 <= j < s.drop_last().len() && s.drop_last()[j] == s.last();
                    assert(s[j] == s[s.len() - 1]);
                }
            }
            assert(!r.contains(s.last()));
            assert forall|i: int, j: int| 0 <= i < j < r.push(s.last()).len() implies
                r.push(s.last())[i] != r.push(s.last())[j] by {
                if j == r.len() {
                    assert(r.contains(r[i]));
                }
            }
        }
    }
}

/// Registering a subscriber keeps the registry well formed.
proof fn lemma_subscribed_wf(a: ContextView, b: ContextView, replayed: Seq<Event>)
    requires
        a.wf(),
        subscribed(a, b, replayed),
        b.missed.len() <= b.capacity,
    ensures
        b.wf(),
{
    let id = a.next_id;
    assert(!a.subscribers.contains(id)) by {
        if a.subscribers.contains(id) {
            let j = choose|j: int| 0 <= j < a.subscribers.len() && a.subscribers[j] == id;
            assert(a.delivered.dom().contains(a.subscribers[j]));
        }
    }
    assert forall|i: int, j: int| 0 <= i < j < b.subscribers.len() implies
        b.subscribers[i] != b.subscribers[j] by {
        if j == a.subscribers.len() {
            assert(a.subscribers.contains(a.subscribers[i]));
        }
    }
    assert forall|i: int| 0 <= i < b.subscribers.len() implies
        #[trigger] b.delivered.dom().contains(b.subscribers[i]) by {
        if i < a.subscribers.len() {
            assert(a.delivered.dom().contains(a.subscribers[i]));
        }
    }
    assert forall|i: int| 0 <= i < b.subscribers.len() implies
        #[trigger] b.accepted.dom().contains(b.subscribers[i]) by {
        if i < a.subscribers.len() {
            assert(a.accepted.dom().contains(a.subscribers[i]));
        }
    }
    assert forall|x: nat| #[trigger] b.delivered.dom().contains(x) implies x < b.next_id by {
        if x != id {
            assert(a.delivered.dom().contains(x));
        }
    }
}

/// The subscription registry: subscribers' channels, the events missed while
/// nobody listened, and the session flags of the bridge.
pub struct Context {
    senders: Vec<Subscriber>,
    missed: Vec<Event>,
    missed_capacity: usize,
    shutdown: bool,
    multitouch: bool,
    primary_pointer_id: i32,
    ids: Ghost<Seq<nat>>,
    delivered: Ghost<Map<nat, Seq<Event>>>,
    accepted: Ghost<Map<nat, Seq<bool>>>,
    next_id: Ghost<nat>,
}

impl View for Context {
    type V = ContextView;

    closed spec fn view(&self) -> ContextView {
        ContextView {
            subscribers: self.ids@,
            delivered: self.delivered@,
            accepted: self.accepted@,
            next_id: self.next_id@,
            missed: self.missed@,
            capacity: self.missed_capacity as nat,
            shutdown: self.shutdown,
            multitouch: self.multitouch,
            primary_pointer_id: self.primary_pointer_id,
        }
    }
}

impl Context {
    /// The registry is well formed: one channel per registered identity,
    /// whose records are those of the identity.
    pub closed spec fn wf(&self) -> bool {
        &&& self@.wf()
        &&& self.senders@.len() == self.ids@.len()
        &&& forall|i: int| 0 <= i < self.senders@.len() ==> {
            &&& #[trigger] self.senders@[i].sent() == self.delivered@[self.ids@[i]]
            &&& self.senders@[i].outcomes() == self.accepted@[self.ids@[i]]
        }
    }

    /// A well-formed registry has a well-formed model.
    pub proof fn lemma_wf_view(&self)
        requires
            self.wf(),
        ensures
            self@.wf(),
    {
    }

    /// The channel of the `i`-th registered subscriber.
    pub closed spec fn channel(&self, i: int) -> Subscriber {
        self.senders@[i]
    }

    /// The model's records of a registered subscriber are those of its
    /// channel: what `Subscriber::send` handed to it and what it answered.
    pub proof fn lemma_records_are_channels(&self)
        requires
            self.wf(),
        ensures
            forall|i: int| 0 <= i < self@.subscribers.len() ==> {
                &&& self@.delivered[self@.subscribers[i]] == #[trigger] self.channel(i).sent()
                &&& self@.accepted[self@.subscribers[i]] == self.channel(i).outcomes()
            },
    {
        assert forall|i: int| 0 <= i < self@.subscribers.len() implies {
            &&& self@.delivered[self@.subscribers[i]] == #[trigger] self.channel(i).sent()
            &&& self@.accepted[self@.subscribers[i]] == self.channel(i).outcomes()
        } by {
            assert(self.senders@[i].sent() == self.delivered@[self.ids@[i]]);
        }
    }

    /// A registry that keeps up to `DEFAULT_MISSED_CAPACITY` missed events.
    pub fn new() -> (r: Context)
        ensures
            r.wf(),
            r@.wf(),
            r@ == ContextView::initial(DEFAULT_MISSED_CAPACITY as nat),
    {
        Context::with_missed_capacity(DEFAULT_MISSED_CAPACITY)
    }

    /// A registry that keeps up to `capacity` missed events.
    pub fn with_missed_capacity(capacity: usize) -> (r: Context)
        ensures
            r.wf(),
            r@.wf(),
            r@ == ContextView::initial(capacity as nat),
    {
        let r = Context {
            senders: Vec::new(),
            missed: Vec::new(),
            missed_capacity: capacity,
            shutdown: false,
            multitouch: false,
            primary_pointer_id: 0,
            ids: Ghost(Seq::empty()),
            delivered: Ghost(Map::empty()),
            accepted: Ghost(Map::empty()),
            next_id: Ghost(0),
        };
        assert(r@ =~= ContextView::initial(capacity as nat));
        r
    }

    pub fn is_shutdown(&self) -> (r: bool)
        ensures
            r == self@.shutdown,
    {
        self.shutdown
    }

    pub fn multitouch(&self) -> (r: bool)
        ensures
            r == self@.multitouch,
    {
        self.multitouch
    }

    pub fn primary_pointer_id(&self) -> (r: i32)
        ensures
            r == self@.primary_pointer_id,
    {
        self.primary_pointer_id
    }

    pub fn subscriber_count(&self) -> (r: usize)
        requires
            self.wf(),
        ensures
            r == self@.subscribers.len(),
    {
        self.senders.len()
    }

    pub fn missed_count(&self) -> (r: usize)
        ensures
            r == self@.missed.len(),
    {
        self.missed.len()
    }

    /// The events kept for the first subscriber, oldest first.
    pub fn missed_events(&self) -> (r: &Vec<Event>)
        ensures
            r@ == self@.missed,
    {
        &self.missed
    }

    /// Records the id of the pointer that single-touch consumers follow.
    pub(crate) fn set_primary_pointer_id(&mut self, id: i32)
        ensures
            final(self)@ == (ContextView { primary_pointer_id: id, ..old(self)@ }),
            old(self).wf() ==> final(self).wf(),
    {
        self.primary_pointer_id = id;
    }

    /// Raises the shutdown flag; it is never lowered again.
    pub(crate) fn mark_shutdown(&mut self)
        ensures
            final(self)@ == (ContextView { shutdown: true, ..old(self)@ }),
            old(self).wf() ==> final(self).wf(),
    {
        self.shutdown = true;
    }
}

/// Appends `sub` under a new identity whose records are those of `sub`.
fn push_subscriber(ctx: &mut Context, sub: Subscriber)
    requires
        old(ctx).wf(),
        sub.outcomes().len() == sub.sent().len(),
    ensures
        final(ctx).wf(),
        subscribed(old(ctx)@, final(ctx)@, sub.sent()),
        final(ctx)@.accepted[old(ctx)@.next_id] == sub.outcomes(),
        final(ctx)@.missed == old(ctx)@.missed,
{
    let ghost id = ctx.next_id@;
    let ghost sent = sub.sent();
    let ghost outcomes = sub.outcomes();
    ctx.senders.push(sub);
    ctx.ids = Ghost(ctx.ids@.push(id));
    ctx.delivered = Ghost(ctx.delivered@.insert(id, sent));
    ctx.accepted = Ghost(ctx.accepted@.insert(id, outcomes));
    ctx.next_id = Ghost(id + 1);
    proof {
        assert(ctx@.accepted == old(ctx)@.accepted.insert(id, ctx@.accepted[id]));
        lemma_subscribed_wf(old(ctx)@, ctx@, sent);
        let v = old(ctx)@;
        assert(!v.subscribers.contains(id)) by {
            if v.subscribers.contains(id) {
                let j = choose|j: int| 0 <= j < v.subscribers.len() && v.subscribers[j] == id;
                assert(v.delivered.dom().contains(v.subscribers[j]));
            }
        }
        assert forall|i: int| 0 <= i < ctx.senders@.len() implies {
            &&& #[trigger] ctx.senders@[i].sent() == ctx.delivered@[ctx.ids@[i]]
            &&& ctx.senders@[i].outcomes() == ctx.accepted@[ctx.ids@[i]]
        } by {
            if i < v.subscribers.len() {
                assert(old(ctx).senders@[i].sent() == old(ctx).delivered@[old(ctx).ids@[i]]);
                assert(v.subscribers[i] != id);
            }
        }
    }
}

/// Registers `sender` to receive every event published from now on, after
/// the subscribers already registered. Missed events are not replayed.
pub fn add_sender(ctx: &mut Context, sender: Sender<Event>)
    requires
        old(ctx).wf(),
    ensures
        final(ctx).wf(),
        subscribe_step(old(ctx)@, final(ctx)@),
{
    push_subscriber(ctx, Subscriber::new(sender));
}

/// Registers `sender` like `add_sender`; when it is the first subscriber it
/// is first handed every missed event, oldest first, and the buffer is
/// emptied. The new subscriber's record of what was handed to its channel
/// is then exactly the buffer that was missed.
pub fn add_sender_missing(ctx: &mut Context, sender: Sender<Event>)
    requires
        old(ctx).wf(),
    ensures
        final(ctx).wf(),
        subscribe_replay_step(old(ctx)@, final(ctx)@),
{
    if ctx.senders.len() == 0 {
        let mut sub = Subscriber::new(sender);
        let mut i: usize = 0;
        while i < ctx.missed.len()
            invariant
                0 <= i <= ctx.missed@.len(),
                ctx@ == old(ctx)@,
                ctx.wf(),
                sub.sent() == ctx.missed@.take(i as int),
                sub.outcomes().len() == i,
                ctx.senders@.len() == 0,
            decreases ctx.missed@.len() - i,
        {
            let e = ctx.missed[i];
            sub.send(e);
            proof {
                assert(ctx.missed@.take(i as int + 1) =~= ctx.missed@.take(i as int).push(e));
            }
            i = i + 1;
        }
        proof {
            assert(ctx.missed@.take(i as int) =~= ctx.missed@);
        }
        let ghost before = ctx@;
        assert(before.wf());
        ctx.missed = Vec::new();
        assert(ctx@.delivered == before.delivered);
        assert(ctx@.next_id == before.next_id);
        proof {
            assert(ctx.senders@.len() == 0);
            assert(ctx@.subscribers.len() == 0);
        }
        push_subscriber(ctx, sub);
    } else {
        add_sender(ctx, sender);
    }
}

/// Sets whether secondary pointers are delivered too.
pub fn set_multitouch(ctx: &mut Context, multitouch: bool)
    requires
        old(ctx).wf(),
    ensures
        final(ctx).wf(),
        final(ctx)@ == (ContextView { multitouch, ..old(ctx)@ }),
{
    ctx.multitouch = multitouch;
}

/// Publishes `event`: buffers it while nobody is registered and the buffer
/// has room, else hands it to every subscriber in order and drops exactly
/// those whose channel refused it.
pub fn send_event(ctx: &mut Context, event: Event)
    requires
        old(ctx).wf(),
    ensures
        final(ctx).wf(),
        publish_step(old(ctx)@, final(ctx)@, event),
{
    if ctx.senders.len() == 0 {
        if ctx.missed.len() < ctx.missed_capacity {
            ctx.missed.push(event);
        }
        proof {
            assert(ctx@ =~= old(ctx)@.with_traffic(
                old(ctx)@.subscribers,
                old(ctx)@.delivered,
                old(ctx)@.accepted,
                ctx@.missed,
            ));
        }
        return;
    }
    let ghost v = ctx@;
    let ghost old_ids = ctx.ids@;
    let ghost old_subs = ctx.senders@;
    let n = ctx.senders.len();
    let mut kept: Vec<Subscriber> = Vec::new();
    let ghost mut keep: Seq<bool> = Seq::empty();
    let ghost mut del = v.delivered;
    let ghost mut acc = v.accepted;
    proof {
        assert(old_ids.no_duplicates());
        assert forall|j: int| 0 <= j < n implies {
            &&& #[trigger] old_subs[j].sent() == v.delivered[old_ids[j]]
            &&& old_subs[j].outcomes() == v.accepted[old_ids[j]]
        } by {
            assert(ctx.senders@[j].sent() == ctx.delivered@[ctx.ids@[j]]);
        }
    }
    while ctx.senders.len() > 0
        invariant
            n == old_ids.len() == old_subs.len(),
            keep.len() + ctx.senders@.len() == n,
            old_ids == v.subscribers,
            old_ids.no_duplicates(),
            v.wf(),
            forall|j: int| 0 <= j < n ==> {
                &&& #[trigger] old_subs[j].sent() == v.delivered[old_ids[j]]
                &&& old_subs[j].outcomes() == v.accepted[old_ids[j]]
            },
            forall|j: int| 0 <= j < ctx.senders@.len() ==> #[trigger] ctx.senders@[j] == old_subs[keep.len() + j],
            ctx.ids@ == old_ids,
            ctx.delivered@ == v.delivered,
            ctx.accepted@ == v.accepted,
            ctx.missed@ == v.missed,
            ctx.missed_capacity == v.capacity,
            ctx.shutdown == v.shutdown,
            ctx.multitouch == v.multitouch,
            ctx.primary_pointer_id == v.primary_pointer_id,
            ctx.next_id@ == v.next_id,
            del.dom() == v.delivered.dom(),
            acc.dom() == v.accepted.dom(),
            forall|id: nat| #[trigger] del.dom().contains(id) ==> del[id] == (
                if old_ids.take(keep.len() as int).contains(id) {
                    v.delivered[id].push(event)
                } else {
                    v.delivered[id]
                }),
            forall|j: int| 0 <= j < keep.len() ==> #[trigger] acc[old_ids[j]] == v.accepted[old_ids[j]].push(keep[j]),
            forall|id: nat| #[trigger] acc.dom().contains(id) && !old_ids.take(keep.len() as int).contains(id)
                ==> acc[id] == v.accepted[id],
            kept@.len() == retain(old_ids.take(keep.len() as int), keep).len(),
            forall|j: int| 0 <= j < kept@.len() ==> {
                let id = #[trigger] retain(old_ids.take(keep.len() as int), keep)[j];
                &&& kept@[j].sent() == del[id]
                &&& kept@[j].outcomes() == acc[id]
            },
        decreases ctx.senders@.len(),
    {
        let ghost k = keep.len() as int;
        let ghost id = old_ids[k];
        let mut s = ctx.senders.remove(0);
        assert(s == old_subs[k]);
        let accepted = s.send(event);
        proof {
            let t = old_ids.take(k);
            let t2 = old_ids.take(k + 1);
            let r = retain(t, keep);
            assert(t2 =~= t.push(id));
            assert(!t.contains(id)) by {
                if t.contains(id) {
                    let j = choose|j: int| 0 <= j < t.len() && t[j] == id;
                    assert(old_ids[j] == old_ids[k]);
                }
            }
            lemma_retain_subset(t, keep);
            assert(t2[k] == id);
            assert(t2.contains(id));
            assert(v.delivered.dom().contains(old_ids[k]));
            assert(v.accepted.dom().contains(old_ids[k]));
            assert(v.delivered.dom().contains(id));
            assert(v.accepted.dom().contains(id));
            let keep2 = keep.push(accepted);
            assert(t2.drop_last() =~= t);
            assert(keep2.drop_last() =~= keep);
            assert forall|j: int| 0 <= j < kept@.len() implies
                #[trigger] r[j] != id by {
                assert(r.contains(r[j]));
            }
            assert forall|x: nat| #[trigger] del.insert(id, s.sent()).dom().contains(x) implies
                del.insert(id, s.sent())[x] == (if t2.contains(x) {
                    v.delivered[x].push(event)
                } else {
                    v.delivered[x]
                }) by {
                if x != id {
                    assert(t2.contains(x) == t.contains(x)) by {
                        if t2.contains(x) {
                            let j = choose|j: int| 0 <= j < t2.len() && t2[j] == x;
                            assert(t[j] == x);
                        }
                    }
                }
            }
            assert forall|j: int| 0 <= j < keep2.len() implies
                #[trigger] acc.insert(id, s.outcomes())[old_ids[j]] == v.accepted[old_ids[j]].push(keep2[j]) by {
                if j < k {
                    assert(old_ids[j] != id);
                }
            }
            assert forall|x: nat| #[trigger] acc.insert(id, s.outcomes()).dom().contains(x) && !t2.contains(x)
                implies acc.insert(id, s.outcomes())[x] == v.accepted[x] by {
                assert(x != id);
                assert(!t.contains(x)) by {
                    if t.contains(x) {
                        let j = choose|j: int| 0 <= j < t.len() && t[j] == x;
                        assert(t2[j] == x);
                    }
                }
            }
            del = del.insert(id, s.sent());
            acc = acc.insert(id, s.outcomes());
            keep = keep2;
        }
        if accepted {
            kept.push(s);
        }
        proof {
            assert forall|j: int| 0 <= j < ctx.senders@.len() implies
                #[trigger] ctx.senders@[j] == old_subs[keep.len() + j] by {
                assert(ctx.senders@[j] == old_subs[(k + 1) + j]);
            }
        }
    }
    proof {
        assert(old_ids.take(n as int) =~= old_ids);
        lemma_retain_subset(old_ids, keep);
        lemma_retain_no_duplicates(old_ids, keep);
        assert(del =~= handed(v.delivered, old_ids, event));
    }
    ctx.senders = kept;
    ctx.ids = Ghost(retain(old_ids, keep));
    ctx.delivered = Ghost(del);
    ctx.accepted = Ghost(acc);
    proof {
        assert(ctx@ == v.with_traffic(retain(old_ids, keep), del, acc, v.missed));
        assert(last_answers(ctx@, v.subscribers) =~= keep) by {
            assert forall|j: int| 0 <= j < n implies acc[old_ids[j]].last() == keep[j] by {
                assert(acc[old_ids[j]] == v.accepted[old_ids[j]].push(keep[j]));
            }
        }
        assert forall|id: nat| #[trigger] acc.dom().contains(id) implies acc[id] == (
            if v.subscribers.contains(id) {
                v.accepted[id].push(acc[id].last())
            } else {
                v.accepted[id]
            }) by {
            if v.subscribers.contains(id) {
                let j = choose|j: int| 0 <= j < n && old_ids[j] == id;
                assert(acc[old_ids[j]] == v.accepted[old_ids[j]].push(keep[j]));
            } else {
                assert(!old_ids.take(n as int).contains(id));
            }
        }
        let r = retain(old_ids, keep);
        assert forall|i: int| 0 <= i < r.len() implies
            ctx@.delivered.dom().contains(#[trigger] r[i]) && ctx@.accepted.dom().contains(r[i]) by {
            assert(r.contains(r[i]));
            assert(old_ids.contains(r[i]));
            let j = choose|j: int| 0 <= j < n && old_ids[j] == r[i];
            assert(v.delivered.dom().contains(v.subscribers[j]));
            assert(v.accepted.dom().contains(v.subscribers[j]));
        }
        assert forall|i: int| 0 <= i < ctx.senders@.len() implies {
            &&& #[trigger] ctx.senders@[i].sent() == ctx.delivered@[ctx.ids@[i]]
            &&& ctx.senders@[i].outcomes() == ctx.accepted@[ctx.ids@[i]]
        } by {
            assert(kept@[i].sent() == del[r[i]]);
        }
        assert(forall|i: int| 0 <= i < ctx@.subscribers.len()
            ==> #[trigger] ctx@.delivered.dom().contains(ctx@.subscribers[i]));
        assert(forall|i: int| 0 <= i < ctx@.subscribers.len()
            ==> #[trigger] ctx@.accepted.dom().contains(ctx@.subscribers[i]));
    }
}

} // verus!
