use vstd::prelude::*;

verus! {

/// Host command codes, as delivered to the command callback.
pub const APP_CMD_INPUT_CHANGED: i32 = 0;
pub const APP_CMD_INIT_WINDOW: i32 = 1;
pub const APP_CMD_TERM_WINDOW: i32 = 2;
pub const APP_CMD_WINDOW_RESIZED: i32 = 3;
pub const APP_CMD_WINDOW_REDRAW_NEEDED: i32 = 4;
pub const APP_CMD_CONTENT_RECT_CHANGED: i32 = 5;
pub const APP_CMD_GAINED_FOCUS: i32 = 6;
pub const APP_CMD_LOST_FOCUS: i32 = 7;
pub const APP_CMD_CONFIG_CHANGED: i32 = 8;
pub const APP_CMD_LOW_MEMORY: i32 = 9;
pub const APP_CMD_START: i32 = 10;
pub const APP_CMD_RESUME: i32 = 11;
pub const APP_CMD_SAVE_STATE: i32 = 12;
pub const APP_CMD_PAUSE: i32 = 13;
pub const APP_CMD_STOP: i32 = 14;
pub const APP_CMD_DESTROY: i32 = 15;

/// Input event classes.
pub const AINPUT_EVENT_TYPE_KEY: i32 = 1;
pub const AINPUT_EVENT_TYPE_MOTION: i32 = 2;

/// Key actions.
pub const AKEY_EVENT_ACTION_DOWN: i32 = 0;
pub const AKEY_EVENT_ACTION_UP: i32 = 1;

/// Layout of a motion action word: the low byte is the action code, the
/// next byte the index of the pointer it concerns.
pub const AMOTION_EVENT_ACTION_MASK: i32 = 0xff;
pub const AMOTION_EVENT_ACTION_POINTER_INDEX_MASK: i32 = 0xff00;
pub const AMOTION_EVENT_ACTION_POINTER_INDEX_SHIFT: i32 = 8;

/// Motion action codes.
pub const AMOTION_EVENT_ACTION_DOWN: i32 = 0;
pub const AMOTION_EVENT_ACTION_UP: i32 = 1;
pub const AMOTION_EVENT_ACTION_MOVE: i32 = 2;
pub const AMOTION_EVENT_ACTION_CANCEL: i32 = 3;
pub const AMOTION_EVENT_ACTION_POINTER_DOWN: i32 = 5;
pub const AMOTION_EVENT_ACTION_POINTER_UP: i32 = 6;

/// The kind of a touch event.
#[derive(Clone, Copy, Debug, PartialEq, Eq)]
pub enum TouchEventType {
    Down,
    PointerDown,
    Move,
    PointerUp,
    Up,
    Cancel,
}

/// What happened to one pointer in a touch event.
#[derive(Clone, Copy, Debug, PartialEq, Eq)]
pub enum PointerState {
    Released,
    Pressed,
    Moved,
    Stationary,
    Cancelled,
}

/// One pointer sample of a touch event.
///
/// Coordinates, pressure, radii and rotation are `f32` values held as their
/// IEEE-754 bit patterns (`f32::to_bits` / `f32::from_bits`): the library
/// moves them around and never computes with them.
#[derive(Clone, Copy, Debug, PartialEq, Eq)]
pub struct Pointer {
    pub state: PointerState,
    pub x: u32,
    pub y: u32,
    pub id: i32,
    pub pressure: u32,
    pub vertical_radius: u32,
    pub horizontal_radius: u32,
    pub rotation_angle: u32,
}

/// A touch event with between one and four pointer samples.
#[derive(Clone, Copy, Debug, PartialEq, Eq)]
pub struct TouchEvent {
    pub event_type: TouchEventType,
    pub timestamp: i64,
    pub num_pointers: u8,
    pub p0: Pointer,
    pub p1: Option<Pointer>,
    pub p2: Option<Pointer>,
    pub p3: Option<Pointer>,
    pub flag: i32,
}

/// An event triggered by the host environment.
#[derive(Clone, Copy, Debug, PartialEq, Eq)]
pub enum Event {
    Touch(TouchEvent),
    KeyDown,
    KeyUp,
    InitWindow,
    TermWindow,
    WindowResized,
    WindowRedrawNeeded,
    ContentRectChanged,
    ConfigChanged,
    InputChanged,
    GainedFocus,
    LostFocus,
    LowMemory,
    SaveState,
    Start,
    Resume,
    Pause,
    Stop,
    Destroy,
    Wake,
}

/// The class of pointer action in a motion event.
#[derive(Clone, Copy, Debug, PartialEq, Eq)]
pub enum MotionAction {
    Down,
    Move,
    Up,
    Cancel,
}

/// Errors of loading a bundled asset.
#[derive(Clone, Copy, Debug, PartialEq, Eq)]
pub enum AssetError {
    AssetMissing,
    EmptyBuffer,
}

/// What the host reports of one pointer of a motion event. Float fields are
/// bit patterns; the radii are half the touch major and minor axes.
#[derive(Clone, Copy, Debug, PartialEq, Eq)]
pub struct PointerSample {
    pub id: i32,
    pub x: u32,
    pub y: u32,
    pub vertical_radius: u32,
    pub horizontal_radius: u32,
}

/// The plain values that the input callback reads from a host input event.
#[derive(Debug, PartialEq, Eq)]
pub struct InputEvent {
    pub event_type: i32,
    pub action: i32,
    pub event_time: i64,
    pub pointers: Vec<PointerSample>,
}

/// The action code held in the low byte of an action word.
pub open spec fn action_code(action: i32) -> i32 {
    action & AMOTION_EVENT_ACTION_MASK
}

/// The pointer index held in the second byte of an action word.
pub open spec fn pointer_index(action: i32) -> i32 {
    (action & AMOTION_EVENT_ACTION_POINTER_INDEX_MASK) >> AMOTION_EVENT_ACTION_POINTER_INDEX_SHIFT
}

pub open spec fn command_event_spec(command: i32) -> Option<Event> {
    if command == APP_CMD_INIT_WINDOW {
        Some(Event::InitWindow)
    } else if command == APP_CMD_SAVE_STATE {
        Some(Event::SaveState)
    } else if command == APP_CMD_TERM_WINDOW {
        Some(Event::TermWindow)
    } else if command == APP_CMD_GAINED_FOCUS {
        Some(Event::GainedFocus)
    } else if command == APP_CMD_LOST_FOCUS {
        Some(Event::LostFocus)
    } else if command == APP_CMD_INPUT_CHANGED {
        Some(Event::InputChanged)
    } else if command == APP_CMD_WINDOW_RESIZED {
        Some(Event::WindowResized)
    } else if command == APP_CMD_WINDOW_REDRAW_NEEDED {
        Some(Event::WindowRedrawNeeded)
    } else if command == APP_CMD_CONTENT_RECT_CHANGED {
        Some(Event::ContentRectChanged)
    } else if command == APP_CMD_CONFIG_CHANGED {
        Some(Event::ConfigChanged)
    } else if command == APP_CMD_LOW_MEMORY {
        Some(Event::LowMemory)
    } else if command == APP_CMD_START {
        Some(Event::Start)
    } else if command == APP_CMD_RESUME {
        Some(Event::Resume)
    } else if command == APP_CMD_PAUSE {
        Some(Event::Pause)
    } else if command == APP_CMD_STOP {
        Some(Event::Stop)
    } else if command == APP_CMD_DESTROY {
        Some(Event::Destroy)
    } else {
        None
    }
}

/// The event that a host command stands for, or `None` for an unknown code.
pub fn command_event(command: i32) -> (r: Option<Event>)
    ensures
        r == command_event_spec(command),
{
    match command {
        APP_CMD_INIT_WINDOW => Some(Event::InitWindow),
        APP_CMD_SAVE_STATE => Some(Event::SaveState),
        APP_CMD_TERM_WINDOW => Some(Event::TermWindow),
        APP_CMD_GAINED_FOCUS => Some(Event::GainedFocus),
        APP_CMD_LOST_FOCUS => Some(Event::LostFocus),
        APP_CMD_INPUT_CHANGED => Some(Event::InputChanged),
        APP_CMD_WINDOW_RESIZED => Some(Event::WindowResized),
        APP_CMD_WINDOW_REDRAW_NEEDED => Some(Event::WindowRedrawNeeded),
        APP_CMD_CONTENT_RECT_CHANGED => Some(Event::ContentRectChanged),
        APP_CMD_CONFIG_CHANGED => Some(Event::ConfigChanged),
        APP_CMD_LOW_MEMORY => Some(Event::LowMemory),
        APP_CMD_START => Some(Event::Start),
        APP_CMD_RESUME => Some(Event::Resume),
        APP_CMD_PAUSE => Some(Event::Pause),
        APP_CMD_STOP => Some(Event::Stop),
        APP_CMD_DESTROY => Some(Event::Destroy),
        _ => None,
    }
}

pub open spec fn motion_action_spec(code: i32) -> Option<MotionAction> {
    if code == AMOTION_EVENT_ACTION_DOWN || code == AMOTION_EVENT_ACTION_POINTER_DOWN {
        Some(MotionAction::Down)
    } else if code == AMOTION_EVENT_ACTION_UP || code == AMOTION_EVENT_ACTION_POINTER_UP {
        Some(MotionAction::Up)
    } else if code == AMOTION_EVENT_ACTION_MOVE {
        Some(MotionAction::Move)
    } else if code == AMOTION_EVENT_ACTION_CANCEL {
        Some(MotionAction::Cancel)
    } else {
        None
    }
}

impl MotionAction {
    /// The action class of a motion action code, or `None` for a code that
    /// is not handled.
    pub fn from_action_code(code: i32) -> (r: Option<MotionAction>)
        ensures
            r == motion_action_spec(code),
    {
        match code {
            AMOTION_EVENT_ACTION_DOWN | AMOTION_EVENT_ACTION_POINTER_DOWN => Some(MotionAction::Down),
            AMOTION_EVENT_ACTION_UP | AMOTION_EVENT_ACTION_POINTER_UP => Some(MotionAction::Up),
            AMOTION_EVENT_ACTION_MOVE => Some(MotionAction::Move),
            AMOTION_EVENT_ACTION_CANCEL => Some(MotionAction::Cancel),
            _ => None,
        }
    }
}

/// The action code of an action word.
pub fn get_action_code(action: i32) -> (r: i32)
    ensures
        r == action_code(action),
        0 <= r < 256,
{
    let r = action & AMOTION_EVENT_ACTION_MASK;
    assert(0 <= (action & 0xff) < 256) by (bit_vector);
    r
}

/// The pointer index of an action word.
pub fn get_pointer_index(action: i32) -> (r: usize)
    ensures
        r == pointer_index(action),
        r < 256,
{
    assert(0 <= ((action & 0xff00) >> 8) < 256) by (bit_vector);
    ((action & AMOTION_EVENT_ACTION_POINTER_INDEX_MASK) >> AMOTION_EVENT_ACTION_POINTER_INDEX_SHIFT) as usize
}


pub open spec fn touch_type_spec(code: i32) -> TouchEventType {
    if code == AMOTION_EVENT_ACTION_DOWN {
        TouchEventType::Down
    } else if code == AMOTION_EVENT_ACTION_MOVE {
        TouchEventType::Move
    } else if code == AMOTION_EVENT_ACTION_POINTER_DOWN {
        TouchEventType::PointerDown
    } else if code == AMOTION_EVENT_ACTION_POINTER_UP {
        TouchEventType::PointerUp
    } else if code == AMOTION_EVENT_ACTION_UP {
        TouchEventType::Up
    } else {
        TouchEventType::Cancel
    }
}

/// State of the pointer at index `idx` under the action word `action`: the
/// plain down, up, move and cancel actions concern every pointer; the
/// pointer-down and pointer-up actions press or release the pointer whose
/// index the word carries and leave the others stationary.
pub open spec fn pointer_state_spec(action: i32, idx: int) -> PointerState {
    if action == AMOTION_EVENT_ACTION_DOWN {
        PointerState::Pressed
    } else if action == AMOTION_EVENT_ACTION_UP {
        PointerState::Released
    } else if action == AMOTION_EVENT_ACTION_MOVE {
        PointerState::Moved
    } else if action == AMOTION_EVENT_ACTION_CANCEL {
        PointerState::Cancelled
    } else if idx != pointer_index(action) {
        PointerState::Stationary
    } else if action_code(action) == AMOTION_EVENT_ACTION_POINTER_DOWN {
        PointerState::Pressed
    } else if action_code(action) == AMOTION_EVENT_ACTION_POINTER_UP {
        PointerState::Released
    } else {
        PointerState::Stationary
    }
}

pub open spec fn pointer_spec(e: InputEvent, idx: int) -> Pointer {
    let s = e.pointers@[idx];
    Pointer {
        state: pointer_state_spec(e.action, idx),
        x: s.x,
        y: s.y,
        id: s.id,
        pressure: 0,
        vertical_radius: s.vertical_radius,
        horizontal_radius: s.horizontal_radius,
        rotation_angle: 0,
    }
}

/// The touch event of a whole motion event: its first four pointers.
pub open spec fn touch_event_spec(e: InputEvent) -> TouchEvent {
    let n = e.pointers@.len();
    TouchEvent {
        event_type: touch_type_spec(action_code(e.action)),
        timestamp: e.event_time,
        num_pointers: if n < 4 { n as u8 } else { 4 },
        p0: pointer_spec(e, 0),
        p1: if n > 1 { Some(pointer_spec(e, 1)) } else { None },
        p2: if n > 2 { Some(pointer_spec(e, 2)) } else { None },
        p3: if n > 3 { Some(pointer_spec(e, 3)) } else { None },
        flag: 0,
    }
}

/// The touch event that carries only the pointer at index `idx`.
pub open spec fn single_touch_spec(e: InputEvent, idx: int) -> TouchEvent {
    TouchEvent {
        event_type: touch_type_spec(action_code(e.action)),
        timestamp: e.event_time,
        num_pointers: 1,
        p0: pointer_spec(e, idx),
        p1: None,
        p2: None,
        p3: None,
        flag: 0,
    }
}

impl TouchEventType {
    /// The kind of touch event that a motion event reports.
    pub fn from_input_event(event: &InputEvent) -> (r: TouchEventType)
        ensures
            r == touch_type_spec(action_code(event.action)),
    {
        let code = get_action_code(event.action);
        match code {
            AMOTION_EVENT_ACTION_DOWN => TouchEventType::Down,
            AMOTION_EVENT_ACTION_MOVE => TouchEventType::Move,
            AMOTION_EVENT_ACTION_POINTER_DOWN => TouchEventType::PointerDown,
            AMOTION_EVENT_ACTION_POINTER_UP => TouchEventType::PointerUp,
            AMOTION_EVENT_ACTION_UP => TouchEventType::Up,
            _ => TouchEventType::Cancel,
        }
    }
}

impl PointerState {
    /// The state of the pointer at index `pointer_idx` in a motion event.
    pub fn from_input_event(event: &InputEvent, pointer_idx: usize) -> (r: PointerState)
        ensures
            r == pointer_state_spec(event.action, pointer_idx as int),
    {
        let action = event.action;
        if action == AMOTION_EVENT_ACTION_DOWN {
            return PointerState::Pressed;
        } else if action == AMOTION_EVENT_ACTION_UP {
            return PointerState::Released;
        }
        if action == AMOTION_EVENT_ACTION_MOVE {
            return PointerState::Moved;
        } else if action == AMOTION_EVENT_ACTION_CANCEL {
            return PointerState::Cancelled;
        }
        let action_idx = get_pointer_index(action);
        if pointer_idx != action_idx {
            return PointerState::Stationary;
        }
        let action_masked = get_action_code(action);
        if action_masked == AMOTION_EVENT_ACTION_POINTER_DOWN {
            return PointerState::Pressed;
        } else if action_masked == AMOTION_EVENT_ACTION_POINTER_UP {
            return PointerState::Released;
        }
        PointerState::Stationary
    }
}

impl Pointer {
    /// The sample of the pointer at index `idx` in a motion event. Pressure
    /// and rotation are not read from the host and are zero.
    pub fn from_input_event(event: &InputEvent, idx: usize) -> (r: Pointer)
        requires
            idx < event.pointers@.len(),
        ensures
            r == pointer_spec(*event, idx as int),
    {
        let s = event.pointers[idx];
        Pointer {
            state: PointerState::from_input_event(event, idx),
            x: s.x,
            y: s.y,
            id: s.id,
            pressure: 0,
            vertical_radius: s.vertical_radius,
            horizontal_radius: s.horizontal_radius,
            rotation_angle: 0,
        }
    }
}

impl TouchEvent {
    /// The touch event of a whole motion event. Only the first four pointers
    /// are kept; `num_pointers` counts the samples present.
    pub fn from_input_event(event: &InputEvent) -> (r: TouchEvent)
        requires
            event.pointers@.len() >= 1,
        ensures
            r == touch_event_spec(*event),
            r.wf(),
    {
        let n = event.pointers.len();
        TouchEvent {
            event_type: TouchEventType::from_input_event(event),
            timestamp: event.event_time,
            num_pointers: if n < 4 { n as u8 } else { 4 },
            p0: Pointer::from_input_event(event, 0),
            p1: if n > 1 { Some(Pointer::from_input_event(event, 1)) } else { None },
            p2: if n > 2 { Some(Pointer::from_input_event(event, 2)) } else { None },
            p3: if n > 3 { Some(Pointer::from_input_event(event, 3)) } else { None },
            flag: 0,
        }
    }

    /// The touch event that carries only the pointer at index `idx`.
    pub fn for_pointer(event: &InputEvent, idx: usize) -> (r: TouchEvent)
        requires
            idx < event.pointers@.len(),
        ensures
            r == single_touch_spec(*event, idx as int),
            r.wf(),
    {
        TouchEvent {
            event_type: TouchEventType::from_input_event(event),
            timestamp: event.event_time,
            num_pointers: 1,
            p0: Pointer::from_input_event(event, idx),
            p1: None,
            p2: None,
            p3: None,
            flag: 0,
        }
    }

    /// Between one and four samples are present, `num_pointers` counts them,
    /// and the optional ones are filled from the front.
    pub open spec fn wf(self) -> bool {
        &&& 1 <= self.num_pointers <= 4
        &&& (self.p1 is Some <==> self.num_pointers >= 2)
        &&& (self.p2 is Some <==> self.num_pointers >= 3)
        &&& (self.p3 is Some <==> self.num_pointers >= 4)
    }
}

} // verus!
