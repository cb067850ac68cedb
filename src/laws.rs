use vstd::prelude::*;
use crate::event::{Event, InputEvent, APP_CMD_DESTROY};
use crate::registry::{
    is_trace, last_answers, lemma_retain_keeps, lemma_retain_kept, publish_step, retain, published, subscribe_replay_step, ContextView,
};
use crate::callbacks::{command_step, input_events, move_events, next_primary};

verus! {

/// The first `cap` elements of `s`, or all of them when there are fewer.
pub open spec fn capped(s: Seq<Event>, cap: nat) -> Seq<Event> {
    if s.len() <= cap {
        s
    } else {
        s.take(cap as int)
    }
}

/// Along a trace, a subscriber registered at step `k` was registered all
/// along and was handed exactly the events published so far.
proof fn lemma_trace_delivery(ms: Seq<ContextView>, a: ContextView, b: ContextView, es: Seq<Event>, id: nat, k: int)
    requires
        is_trace(ms, a, b, es),
        0 <= k <= es.len(),
        ms[k].subscribers.contains(id),
        a.delivered.dom().contains(id),
        a.accepted.dom().contains(id),
    ensures
        ms[k].delivered.dom().contains(id),
        ms[k].delivered[id] == a.delivered[id] + es.take(k),
        ms[k].accepted.dom().contains(id),
        ms[k].accepted[id] == a.accepted[id] + Seq::new(k as nat, |i: int| true),
    decreases k,
{
    if k == 0 {
        assert(es.take(0) =~= Seq::<Event>::empty());
        assert(a.delivered[id] + es.take(0) =~= a.delivered[id]);
        assert(a.accepted[id] + Seq::new(0, |i: int| true) =~= a.accepted[id]);
    } else {
        let p = ms[k - 1];
        let j = k - 1;
        assert(publish_step(ms[j], ms[j + 1], es[j]));
        assert(ms[j + 1] == ms[k]);
        if p.subscribers.len() == 0 {
            assert(ms[k].subscribers == p.subscribers);
        } else {
            let keep = crate::registry::last_answers(ms[k], p.subscribers);
            lemma_retain_kept(p.subscribers, keep, id);
            let i = choose|i: int| 0 <= i < p.subscribers.len() && p.subscribers[i] == id && keep[i];
            assert(p.subscribers.contains(id));
            lemma_trace_delivery(ms, a, b, es, id, k - 1);
            assert(es.take(k) =~= es.take(k - 1).push(es[k - 1]));
            assert(a.delivered[id] + es.take(k) =~= (a.delivered[id] + es.take(k - 1)).push(es[k - 1]));
            assert(ms[k].accepted.dom().contains(id));
            assert(ms[k].accepted[id].last());
            assert(a.accepted[id] + Seq::new(k as nat, |i: int| true)
                =~= (a.accepted[id] + Seq::new((k - 1) as nat, |i: int| true)).push(true));
        }
    }
}

/// Ordering: a subscriber that is still registered after a run of
/// publications was handed exactly those events, in publication order. For
/// a registered subscriber `delivered` is what its channel was handed by
/// `Subscriber::send` (see `Context::lemma_records_are_channels`), and its
/// channel accepted each of them.
pub proof fn lemma_subscriber_sees_all_in_order(a: ContextView, b: ContextView, es: Seq<Event>, id: nat)
    requires
        published(a, b, es),
        a.delivered.dom().contains(id),
        a.accepted.dom().contains(id),
        b.subscribers.contains(id),
    ensures
        b.delivered[id] == a.delivered[id] + es,
        b.accepted[id] == a.accepted[id] + Seq::new(es.len(), |i: int| true),
{
    let ms = choose|ms: Seq<ContextView>| is_trace(ms, a, b, es);
    lemma_trace_delivery(ms, a, b, es, id, es.len() as int);
    assert(es.take(es.len() as int) =~= es);
}

/// Subscriber pruning: after a publication, a subscriber that was
/// registered is still registered exactly when its channel accepted the
/// event, and the survivors keep their order.
pub proof fn lemma_pruned_exactly_when_refused(a: ContextView, b: ContextView, e: Event, id: nat)
    requires
        a.wf(),
        publish_step(a, b, e),
        a.subscribers.contains(id),
    ensures
        b.accepted[id] == a.accepted[id].push(b.accepted[id].last()),
        b.subscribers.contains(id) <==> b.accepted[id].last(),
        b.subscribers == retain(a.subscribers, last_answers(b, a.subscribers)),
{
    let i = choose|i: int| 0 <= i < a.subscribers.len() && a.subscribers[i] == id;
    let keep = last_answers(b, a.subscribers);
    assert(a.accepted.dom().contains(a.subscribers[i]));
    if b.accepted[id].last() {
        assert(keep[i]);
        lemma_retain_keeps(a.subscribers, keep, i);
    }
    if b.subscribers.contains(id) {
        lemma_retain_kept(a.subscribers, keep, id);
        let j = choose|j: int| 0 <= j < a.subscribers.len() && a.subscribers[j] == id && keep[j];
        assert(j == i) by {
            if j != i {
                assert(a.subscribers[j] == a.subscribers[i]);
            }
        }
    }
}

/// Along a trace that starts with nobody registered, nobody gets
/// registered, and the buffer holds the first events up to its capacity.
proof fn lemma_trace_missed(ms: Seq<ContextView>, a: ContextView, b: ContextView, es: Seq<Event>, k: int)
    requires
        is_trace(ms, a, b, es),
        0 <= k <= es.len(),
        a.subscribers.len() == 0,
        a.missed.len() <= a.capacity,
    ensures
        ms[k].subscribers.len() == 0,
        ms[k].capacity == a.capacity,
        ms[k].next_id == a.next_id,
        ms[k].delivered == a.delivered,
        ms[k].missed == capped(a.missed + es.take(k), a.capacity),
    decreases k,
{
    if k == 0 {
        assert(a.missed + es.take(0) =~= a.missed);
    } else {
        lemma_trace_missed(ms, a, b, es, k - 1);
        let p = ms[k - 1];
        let j = k - 1;
        assert(publish_step(ms[j], ms[j + 1], es[j]));
        assert(ms[j + 1] == ms[k]);
        let x = a.missed + es.take(k - 1);
        let y = a.missed + es.take(k);
        assert(y =~= x.push(es[k - 1]));
        if x.len() >= a.capacity {
            assert(y.take(a.capacity as int) =~= x.take(a.capacity as int));
        }
    }
}

/// Missed-event cap: while nobody is registered, publishing `es` keeps
/// nobody registered and leaves in the buffer the events it held followed
/// by those of `es`, in publication order, cut at the capacity: no event is
/// evicted, the ones beyond the capacity are dropped.
pub proof fn lemma_missed_events_capped(a: ContextView, b: ContextView, es: Seq<Event>)
    requires
        a.wf(),
        a.subscribers.len() == 0,
        published(a, b, es),
    ensures
        b.subscribers.len() == 0,
        b.capacity == a.capacity,
        b.missed == capped(a.missed + es, a.capacity),
{
    let ms = choose|ms: Seq<ContextView>| is_trace(ms, a, b, es);
    lemma_trace_missed(ms, a, b, es, es.len() as int);
    assert(es.take(es.len() as int) =~= es);
}

/// Missed-event cap from a fresh registry: publishing more than `capacity`
/// events while nobody is registered buffers exactly the first `capacity`
/// of them, in publication order.
pub proof fn lemma_fresh_registry_buffers_first_events(capacity: nat, b: ContextView, es: Seq<Event>)
    requires
        es.len() > capacity,
        published(ContextView::initial(capacity), b, es),
    ensures
        b.missed == es.take(capacity as int),
        b.missed.len() == capacity,
{
    let a = ContextView::initial(capacity);
    lemma_missed_events_capped(a, b, es);
    assert(a.missed + es =~= es);
}

/// Missed-event cap: with nobody registered, publishing more events than
/// the buffer holds keeps exactly the first `capacity` of them; the first
/// subscriber that asks for replay is handed those, oldest first, and a
/// second one that asks is handed nothing.
pub proof fn lemma_missed_events_capped_and_replayed_once(
    a: ContextView,
    b: ContextView,
    c: ContextView,
    d: ContextView,
    es: Seq<Event>,
)
    requires
        a.wf(),
        a.subscribers.len() == 0,
        a.missed.len() == 0,
        es.len() > a.capacity,
        published(a, b, es),
        subscribe_replay_step(b, c),
        subscribe_replay_step(c, d),
    ensures
        b.missed == es.take(a.capacity as int),
        b.missed.len() == a.capacity,
        c.subscribers == seq![b.next_id],
        c.delivered[b.next_id] == es.take(a.capacity as int),
        c.missed.len() == 0,
        d.delivered[c.next_id] == Seq::<Event>::empty(),
        d.missed.len() == 0,
{
    let ms = choose|ms: Seq<ContextView>| is_trace(ms, a, b, es);
    lemma_trace_missed(ms, a, b, es, es.len() as int);
    assert(a.missed + es.take(es.len() as int) =~= es);
    assert(c.subscribers =~= seq![b.next_id]);
}

/// Idempotent shutdown: the destroy command raises the shutdown flag, a
/// second one leaves it raised, and no command ever lowers it.
pub proof fn lemma_shutdown_idempotent(a: ContextView, b: ContextView, c: ContextView)
    requires
        command_step(a, b, APP_CMD_DESTROY),
        command_step(b, c, APP_CMD_DESTROY),
    ensures
        b.shutdown,
        c.shutdown,
{
}

/// No command lowers the shutdown flag.
pub proof fn lemma_shutdown_monotonic(a: ContextView, b: ContextView, command: i32)
    requires
        command_step(a, b, command),
        a.shutdown,
    ensures
        b.shutdown,
{
    match crate::event::command_event_spec(command) {
        None => {},
        Some(ev) => {
            let m = choose|m: ContextView|
                #[trigger] publish_step(a, m, ev) && b == (if ev == Event::Destroy {
                    ContextView { shutdown: true, ..m }
                } else {
                    m
                });
        },
    }
}

proof fn lemma_move_events_primary_only(e: InputEvent, primary: i32, n: nat)
    requires
        n <= e.pointers@.len(),
    ensures
        forall|i: int| 0 <= i < move_events(e, false, primary, n).len() ==>
            ((#[trigger] move_events(e, false, primary, n)[i]) matches Event::Touch(t) && t.p0.id == primary),
    decreases n,
{
    if n > 0 {
        lemma_move_events_primary_only(e, primary, (n - 1) as nat);
    }
}

/// Primary-pointer filter: with multitouch off, every touch event that an
/// input event gives carries the primary pointer, as updated by that event.
pub proof fn lemma_single_touch_follows_primary(e: InputEvent, primary: i32)
    ensures
        forall|i: int| 0 <= i < input_events(e, false, primary).len() ==>
            ((#[trigger] input_events(e, false, primary)[i]) matches Event::Touch(t)
                ==> t.p0.id == next_primary(e, primary)),
{
    lemma_move_events_primary_only(e, next_primary(e, primary), e.pointers@.len());
}

} // verus!
