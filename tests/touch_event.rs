use android_glue::event::{
    get_action_code, get_pointer_index, AINPUT_EVENT_TYPE_MOTION, AMOTION_EVENT_ACTION_CANCEL,
    AMOTION_EVENT_ACTION_DOWN, AMOTION_EVENT_ACTION_MOVE, AMOTION_EVENT_ACTION_POINTER_DOWN,
    AMOTION_EVENT_ACTION_POINTER_UP, AMOTION_EVENT_ACTION_UP,
};
use android_glue::{InputEvent, Pointer, PointerSample, PointerState, TouchEvent, TouchEventType};

fn sample(id: i32) -> PointerSample {
    PointerSample {
        id,
        x: (id as f32 * 10.0).to_bits(),
        y: (id as f32 * 20.0).to_bits(),
        vertical_radius: 3.5f32.to_bits(),
        horizontal_radius: 1.25f32.to_bits(),
    }
}

fn motion(action: i32, n: i32) -> InputEvent {
    InputEvent {
        event_type: AINPUT_EVENT_TYPE_MOTION,
        action,
        event_time: 1234,
        pointers: (0..n).map(|i| sample(i + 100)).collect(),
    }
}

#[test]
fn action_word_is_split_into_code_and_index() {
    assert_eq!(get_action_code(0x0205), 5);
    assert_eq!(get_pointer_index(0x0205), 2);
    assert_eq!(get_action_code(2), 2);
    assert_eq!(get_pointer_index(2), 0);
    assert_eq!(get_pointer_index(-1), 255);
    assert_eq!(get_action_code(-1), 255);
}

#[test]
fn touch_event_type_of_action() {
    let cases = [
        (AMOTION_EVENT_ACTION_DOWN, TouchEventType::Down),
        (AMOTION_EVENT_ACTION_MOVE, TouchEventType::Move),
        (AMOTION_EVENT_ACTION_POINTER_DOWN | (1 << 8), TouchEventType::PointerDown),
        (AMOTION_EVENT_ACTION_POINTER_UP | (2 << 8), TouchEventType::PointerUp),
        (AMOTION_EVENT_ACTION_UP, TouchEventType::Up),
        (AMOTION_EVENT_ACTION_CANCEL, TouchEventType::Cancel),
        (9, TouchEventType::Cancel),
    ];
    for (action, kind) in cases.iter() {
        assert_eq!(TouchEventType::from_input_event(&motion(*action, 3)), *kind);
    }
}

#[test]
fn pointer_state_of_each_pointer() {
    let e = motion(AMOTION_EVENT_ACTION_DOWN, 2);
    assert_eq!(PointerState::from_input_event(&e, 0), PointerState::Pressed);
    assert_eq!(PointerState::from_input_event(&e, 1), PointerState::Pressed);
    let e = motion(AMOTION_EVENT_ACTION_UP, 1);
    assert_eq!(PointerState::from_input_event(&e, 0), PointerState::Released);
    let e = motion(AMOTION_EVENT_ACTION_MOVE, 2);
    assert_eq!(PointerState::from_input_event(&e, 1), PointerState::Moved);
    let e = motion(AMOTION_EVENT_ACTION_CANCEL, 2);
    assert_eq!(PointerState::from_input_event(&e, 0), PointerState::Cancelled);
    let e = motion(AMOTION_EVENT_ACTION_POINTER_DOWN | (1 << 8), 2);
    assert_eq!(PointerState::from_input_event(&e, 0), PointerState::Stationary);
    assert_eq!(PointerState::from_input_event(&e, 1), PointerState::Pressed);
    let e = motion(AMOTION_EVENT_ACTION_POINTER_UP | (1 << 8), 2);
    assert_eq!(PointerState::from_input_event(&e, 1), PointerState::Released);
    assert_eq!(PointerState::from_input_event(&e, 0), PointerState::Stationary);
    let e = motion(AMOTION_EVENT_ACTION_MOVE | (1 << 8), 2);
    assert_eq!(PointerState::from_input_event(&e, 1), PointerState::Stationary);
}

#[test]
fn pointer_sample_is_copied_with_zero_pressure_and_rotation() {
    let e = motion(AMOTION_EVENT_ACTION_MOVE, 3);
    let p = Pointer::from_input_event(&e, 2);
    assert_eq!(p.id, 102);
    assert_eq!(f32::from_bits(p.x), 1020.0);
    assert_eq!(f32::from_bits(p.y), 2040.0);
    assert_eq!(f32::from_bits(p.vertical_radius), 3.5);
    assert_eq!(f32::from_bits(p.horizontal_radius), 1.25);
    assert_eq!(f32::from_bits(p.pressure), 0.0);
    assert_eq!(f32::from_bits(p.rotation_angle), 0.0);
    assert_eq!(p.state, PointerState::Moved);
}

#[test]
fn touch_event_keeps_at_most_four_pointers() {
    let t = TouchEvent::from_input_event(&motion(AMOTION_EVENT_ACTION_MOVE, 6));
    assert_eq!(t.num_pointers, 4);
    assert_eq!(t.p0.id, 100);
    assert_eq!(t.p1.map(|p| p.id), Some(101));
    assert_eq!(t.p2.map(|p| p.id), Some(102));
    assert_eq!(t.p3.map(|p| p.id), Some(103));
    assert_eq!(t.timestamp, 1234);
    assert_eq!(t.flag, 0);
    assert_eq!(t.event_type, TouchEventType::Move);
}

#[test]
fn touch_event_with_one_pointer() {
    let t = TouchEvent::from_input_event(&motion(AMOTION_EVENT_ACTION_DOWN, 1));
    assert_eq!(t.num_pointers, 1);
    assert_eq!(t.p0.id, 100);
    assert_eq!(t.p0.state, PointerState::Pressed);
    assert!(t.p1.is_none() && t.p2.is_none() && t.p3.is_none());
}

#[test]
fn touch_event_with_two_pointers() {
    let t = TouchEvent::from_input_event(&motion(AMOTION_EVENT_ACTION_POINTER_DOWN | (1 << 8), 2));
    assert_eq!(t.num_pointers, 2);
    assert_eq!(t.p1.map(|p| p.state), Some(PointerState::Pressed));
    assert_eq!(t.p0.state, PointerState::Stationary);
    assert!(t.p2.is_none());
    let single = TouchEvent::for_pointer(&motion(AMOTION_EVENT_ACTION_MOVE, 3), 2);
    assert_eq!(single.num_pointers, 1);
    assert_eq!(single.p0.id, 102);
    assert!(single.p1.is_none());
}
