use vstd::prelude::*;
use crate::event::{
    action_code, command_event, command_event_spec, get_action_code, get_pointer_index,
    motion_action_spec, pointer_index, single_touch_spec, Event, InputEvent, MotionAction,
    TouchEvent, AINPUT_EVENT_TYPE_KEY, AINPUT_EVENT_TYPE_MOTION, AKEY_EVENT_ACTION_DOWN,
    AKEY_EVENT_ACTION_UP, AMOTION_EVENT_ACTION_DOWN,
};
use crate::registry::{
    lemma_published_empty, lemma_published_push, publish_step, published, send_event, Context,
    ContextView,
};

verus! {

/// A command code takes the registry from `a` to `b`: a known code publishes
/// its event, and the destroy code raises the shutdown flag after that; an
/// unknown code changes nothing.
pub open spec fn command_step(a: ContextView, b: ContextView, command: i32) -> bool {
    match command_event_spec(command) {
        None => b == a,
        Some(ev) => exists|m: ContextView|
            #[trigger] publish_step(a, m, ev) && b == (if ev == Event::Destroy {
                ContextView { shutdown: true, ..m }
            } else {
                m
            }),
    }
}

/// Whether a pointer's events reach consumers: all do with multitouch on,
/// else only the primary pointer's.
pub open spec fn passes_filter(multitouch: bool, primary: i32, id: i32) -> bool {
    multitouch || id == primary
}

/// The touch events of the first `n` pointers of a move event that pass the filter.
pub open spec fn move_events(e: InputEvent, multitouch: bool, primary: i32, n: nat) -> Seq<Event>
    decreases n,
{
    if n == 0 {
        Seq::empty()
    } else {
        let k = (n - 1) as nat;
        let before = move_events(e, multitouch, primary, k);
        if passes_filter(multitouch, primary, e.pointers@[k as int].id) {
            before.push(Event::Touch(single_touch_spec(e, k as int)))
        } else {
            before
        }
    }
}

/// A down, up or cancel action concerns the pointer at the index its action
/// word carries; one whose index is out of range is malformed and ignored.
/// A move concerns every pointer, whatever the index.
pub open spec fn motion_in_range(e: InputEvent) -> bool {
    pointer_index(e.action) < e.pointers@.len()
}

/// The primary pointer after `e`: a down action makes its pointer primary.
pub open spec fn next_primary(e: InputEvent, primary: i32) -> i32 {
    if e.event_type == AINPUT_EVENT_TYPE_MOTION && action_code(e.action) == AMOTION_EVENT_ACTION_DOWN
        && motion_in_range(e) {
        e.pointers@[pointer_index(e.action) as int].id
    } else {
        primary
    }
}

/// The events that an input event stands for, given the multitouch setting
/// and the primary pointer before it.
pub open spec fn input_events(e: InputEvent, multitouch: bool, primary: i32) -> Seq<Event> {
    let code = action_code(e.action);
    if e.event_type == AINPUT_EVENT_TYPE_KEY {
        if code == AKEY_EVENT_ACTION_DOWN {
            seq![Event::KeyDown]
        } else if code == AKEY_EVENT_ACTION_UP {
            seq![Event::KeyUp]
        } else {
            Seq::empty()
        }
    } else if e.event_type == AINPUT_EVENT_TYPE_MOTION && motion_action_spec(code) is Some {
        let p = next_primary(e, primary);
        let idx = pointer_index(e.action) as int;
        if motion_action_spec(code) == Some(MotionAction::Move) {
            move_events(e, multitouch, p, e.pointers@.len())
        } else if motion_in_range(e) && passes_filter(multitouch, p, e.pointers@[idx].id) {
            seq![Event::Touch(single_touch_spec(e, idx))]
        } else {
            Seq::empty()
        }
    } else {
        Seq::empty()
    }
}

/// Handles a host command: publishes the event it stands for; the destroy
/// command then raises the shutdown flag, so that subscribers see `Destroy`
/// before the loop ends. Unknown codes are ignored.
pub fn commands_callback(ctx: &mut Context, command: i32)
    requires
        old(ctx).wf(),
    ensures
        final(ctx).wf(),
        command_step(old(ctx)@, final(ctx)@, command),
{
    match command_event(command) {
        Some(ev) => {
            send_event(ctx, ev);
            let ghost m = ctx@;
            if matches!(ev, Event::Destroy) {
                ctx.mark_shutdown();
            }
            assert(publish_step(old(ctx)@, m, ev));
        },
        None => {},
    }
}

/// The touch events of the move event `event`, one per pointer that passes
/// the filter, in pointer order.
fn move_touch_events(event: &InputEvent, multitouch: bool, primary: i32) -> (evs: Vec<Event>)
    ensures
        evs@ == move_events(*event, multitouch, primary, event.pointers@.len()),
{
    let n = event.pointers.len();
    let mut evs: Vec<Event> = Vec::new();
    let mut j: usize = 0;
    while j < n
        invariant
            j <= n == event.pointers@.len(),
            evs@ == move_events(*event, multitouch, primary, j as nat),
        decreases n - j,
    {
        let id = event.pointers[j].id;
        if multitouch || id == primary {
            evs.push(Event::Touch(TouchEvent::for_pointer(event, j)));
        }
        j = j + 1;
    }
    evs
}

/// Reads a host input event: updates the primary pointer as a down action
/// asks and returns the events it stands for, in order, without publishing
/// them.
pub fn decode_input(ctx: &mut Context, event: &InputEvent) -> (evs: Vec<Event>)
    requires
        old(ctx).wf(),
    ensures
        final(ctx).wf(),
        final(ctx)@ == (ContextView {
            primary_pointer_id: next_primary(*event, old(ctx)@.primary_pointer_id),
            ..old(ctx)@
        }),
        evs@ == input_events(*event, old(ctx)@.multitouch, old(ctx)@.primary_pointer_id),
{
    let ghost v0 = ctx@;
    proof {
        assert(v0 == ContextView { primary_pointer_id: v0.primary_pointer_id, ..v0 });
    }
    let mut evs: Vec<Event> = Vec::new();
    let code = get_action_code(event.action);
    if event.event_type == AINPUT_EVENT_TYPE_KEY {
        if code == AKEY_EVENT_ACTION_DOWN {
            evs.push(Event::KeyDown);
        } else if code == AKEY_EVENT_ACTION_UP {
            evs.push(Event::KeyUp);
        }
        proof {
            assert(seq![Event::KeyDown] =~= Seq::<Event>::empty().push(Event::KeyDown));
            assert(seq![Event::KeyUp] =~= Seq::<Event>::empty().push(Event::KeyUp));
        }
        return evs;
    }
    if event.event_type != AINPUT_EVENT_TYPE_MOTION {
        return evs;
    }
    let motion_action = match MotionAction::from_action_code(code) {
        Some(a) => a,
        None => return evs,
    };
    let idx = get_pointer_index(event.action);
    if idx < event.pointers.len() && code == AMOTION_EVENT_ACTION_DOWN {
        ctx.set_primary_pointer_id(event.pointers[idx].id);
    }
    let primary = ctx.primary_pointer_id();
    let multitouch = ctx.multitouch();
    match motion_action {
        MotionAction::Move => move_touch_events(event, multitouch, primary),
        _ => {
            if idx < event.pointers.len() && (multitouch || event.pointers[idx].id == primary) {
                let touch = TouchEvent::for_pointer(event, idx);
                evs.push(Event::Touch(touch));
                proof {
                    assert(seq![Event::Touch(touch)] =~= Seq::<Event>::empty().push(Event::Touch(touch)));
                }
            }
            evs
        },
    }
}

/// Publishes `evs` one after another.
pub fn publish_all(ctx: &mut Context, evs: &Vec<Event>)
    requires
        old(ctx).wf(),
    ensures
        final(ctx).wf(),
        published(old(ctx)@, final(ctx)@, evs@),
{
    proof {
        lemma_published_empty(ctx@);
        assert(evs@.take(0) =~= Seq::<Event>::empty());
    }
    let n = evs.len();
    let mut i: usize = 0;
    while i < n
        invariant
            i <= n == evs@.len(),
            ctx.wf(),
            published(old(ctx)@, ctx@, evs@.take(i as int)),
        decreases n - i,
    {
        let ghost before = ctx@;
        send_event(ctx, evs[i]);
        proof {
            lemma_published_push(old(ctx)@, before, ctx@, evs@.take(i as int), evs@[i as int]);
            assert(evs@.take(i as int).push(evs@[i as int]) =~= evs@.take(i as int + 1));
        }
        i = i + 1;
    }
    proof {
        assert(evs@.take(n as int) =~= evs@);
    }
}

/// Handles a host input event: decodes it (see `decode_input`) and
/// publishes its events in order. Key down and up become `KeyDown` and
/// `KeyUp`. A motion event becomes touch events: a down action first makes
/// its pointer primary; down, up and cancel publish one event for the
/// pointer they concern (none when its index is out of range), a move
/// publishes one per pointer; with multitouch off only the primary
/// pointer's events pass. Anything else is ignored. The result is always 0:
/// the event is not consumed.
pub fn inputs_callback(ctx: &mut Context, event: &InputEvent) -> (r: i32)
    requires
        old(ctx).wf(),
    ensures
        r == 0,
        final(ctx).wf(),
        published(
            ContextView { primary_pointer_id: next_primary(*event, old(ctx)@.primary_pointer_id), ..old(ctx)@ },
            final(ctx)@,
            input_events(*event, old(ctx)@.multitouch, old(ctx)@.primary_pointer_id),
        ),
{
    let evs = decode_input(ctx, event);
    publish_all(ctx, &evs);
    0
}

} // verus!
