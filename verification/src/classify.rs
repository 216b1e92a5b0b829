use vstd::prelude::*;
use crate::buttons::{MouseButton, spec_button_from_linux_key_code, button_from_linux_key_code};

verus! {

/// Linux input event type for key events.
pub const EV_KEY: u16 = 0x01;

/// Linux input event type for relative-axis events.
pub const EV_REL: u16 = 0x02;

/// Relative-axis code of the horizontal wheel.
pub const REL_HWHEEL: u16 = 0x06;

/// Relative-axis code of the high-resolution horizontal wheel.
pub const REL_HWHEEL_HI_RES: u16 = 0x0c;

/// Key-event value marking the press edge; releases (0) and repeats (2) never
/// trigger actions.
pub const KEY_VALUE_PRESS: i32 = 1;

/// One raw hardware input event, reduced to the fields classification reads.
#[derive(Clone, Copy, Debug, PartialEq, Eq, Structural)]
pub struct RawEvent {
    pub event_type: u16,
    pub code: u16,
    pub value: i32,
}

/// The wheel-tilt pseudo-button a relative-axis event synthesizes: a negative
/// delta on a horizontal-wheel axis tilts left, a positive one tilts right,
/// and a zero delta or any other axis produces nothing.
pub open spec fn spec_wheel_tilt(axis: u16, value: i32) -> Option<MouseButton> {
    if axis != REL_HWHEEL && axis != REL_HWHEEL_HI_RES {
        None
    } else if value < 0 {
        Some(MouseButton::WheelTiltLeft)
    } else if value > 0 {
        Some(MouseButton::WheelTiltRight)
    } else {
        None
    }
}

/// Classifies one relative-axis event as a wheel-tilt pseudo-button.
pub fn wheel_tilt_from_relative_axis(axis: u16, value: i32) -> (r: Option<MouseButton>)
    ensures
        r == spec_wheel_tilt(axis, value),
{
    if axis != REL_HWHEEL && axis != REL_HWHEEL_HI_RES {
        return None;
    }
    if value < 0 {
        Some(MouseButton::WheelTiltLeft)
    } else if value > 0 {
        Some(MouseButton::WheelTiltRight)
    } else {
        None
    }
}

/// The logical button a raw event activates: a key event on its press edge
/// activates the button with that key code, a horizontal-wheel event with a
/// nonzero delta activates a wheel tilt, and everything else is ignored.
pub open spec fn spec_classify_event(ev: RawEvent) -> Option<MouseButton> {
    if ev.event_type == EV_KEY && ev.value == KEY_VALUE_PRESS {
        spec_button_from_linux_key_code(ev.code)
    } else if ev.event_type == EV_REL {
        spec_wheel_tilt(ev.code, ev.value)
    } else {
        None
    }
}

/// Classifies one raw event as a logical-button activation.
pub fn classify_event(ev: RawEvent) -> (r: Option<MouseButton>)
    ensures
        r == spec_classify_event(ev),
{
    if ev.event_type == EV_KEY && ev.value == KEY_VALUE_PRESS {
        button_from_linux_key_code(ev.code)
    } else if ev.event_type == EV_REL {
        wheel_tilt_from_relative_axis(ev.code, ev.value)
    } else {
        None
    }
}

/// The activations of a batch of raw events, each classified independently,
/// in the order received.
pub open spec fn spec_activations(events: Seq<RawEvent>) -> Seq<MouseButton>
    decreases events.len(),
{
    if events.len() == 0 {
        Seq::empty()
    } else {
        let rest = spec_activations(events.drop_last());
        match spec_classify_event(events.last()) {
            Some(b) => rest.push(b),
            None => rest,
        }
    }
}

/// Classifies a batch of raw events, preserving arrival order; one event
/// never contributes more than one activation, so a wheel tick and a key
/// press in the same batch stay distinct.
pub fn classify_events(events: &Vec<RawEvent>) -> (acts: Vec<MouseButton>)
    ensures
        acts@ == spec_activations(events@),
{
    let mut acts: Vec<MouseButton> = Vec::new();
    let n = events.len();
    for i in 0..n
        invariant
            n == events@.len(),
            acts@ == spec_activations(events@.take(i as int)),
    {
        proof {
            assert(events@.take(i + 1).drop_last() =~= events@.take(i as int));
            assert(events@.take(i + 1).last() == events@[i as int]);
        }
        match classify_event(events[i]) {
            Some(b) => acts.push(b),
            None => (),
        }
    }
    proof {
        assert(events@.take(n as int) =~= events@);
    }
    acts
}

} // verus!
