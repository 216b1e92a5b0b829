use vstd::prelude::*;

verus! {

/// A logical mouse control: one of the fixed physical buttons, or a
/// synthesized wheel-tilt pseudo-button.
#[derive(Clone, Copy, Debug, PartialEq, Eq, Hash, Structural)]
pub enum MouseButton {
    BtnLeft,
    BtnRight,
    BtnMiddle,
    BtnSide,
    BtnExtra,
    BtnForward,
    BtnBack,
    BtnTask,
    WheelTiltLeft,
    WheelTiltRight,
}

/// The Linux input key code a physical button reports; wheel tilts are
/// synthesized from relative-axis events and have no key code.
pub open spec fn spec_linux_key_code(b: MouseButton) -> Option<u16> {
    match b {
        MouseButton::BtnLeft => Some(0x110u16),
        MouseButton::BtnRight => Some(0x111u16),
        MouseButton::BtnMiddle => Some(0x112u16),
        MouseButton::BtnSide => Some(0x113u16),
        MouseButton::BtnExtra => Some(0x114u16),
        MouseButton::BtnForward => Some(0x115u16),
        MouseButton::BtnBack => Some(0x116u16),
        MouseButton::BtnTask => Some(0x117u16),
        MouseButton::WheelTiltLeft => None,
        MouseButton::WheelTiltRight => None,
    }
}

/// The X11 core button number a logical button arrives as, if any.
pub open spec fn spec_x11_button_number(b: MouseButton) -> Option<u32> {
    match b {
        MouseButton::BtnLeft => Some(1u32),
        MouseButton::BtnMiddle => Some(2u32),
        MouseButton::BtnRight => Some(3u32),
        MouseButton::BtnSide => Some(8u32),
        MouseButton::BtnBack => Some(8u32),
        MouseButton::BtnExtra => Some(9u32),
        MouseButton::BtnForward => Some(9u32),
        MouseButton::BtnTask => None,
        MouseButton::WheelTiltLeft => Some(6u32),
        MouseButton::WheelTiltRight => Some(7u32),
    }
}

impl MouseButton {
    /// The Linux input key code this button reports, if it is a physical button.
    pub fn linux_key_code(self) -> (r: Option<u16>)
        ensures
            r == spec_linux_key_code(self),
    {
        match self {
            MouseButton::BtnLeft => Some(0x110),
            MouseButton::BtnRight => Some(0x111),
            MouseButton::BtnMiddle => Some(0x112),
            MouseButton::BtnSide => Some(0x113),
            MouseButton::BtnExtra => Some(0x114),
            MouseButton::BtnForward => Some(0x115),
            MouseButton::BtnBack => Some(0x116),
            MouseButton::BtnTask => Some(0x117),
            MouseButton::WheelTiltLeft | MouseButton::WheelTiltRight => None,
        }
    }

    /// The X11 core button number this button arrives as, if any.
    pub fn x11_button_number(self) -> (r: Option<u32>)
        ensures
            r == spec_x11_button_number(self),
    {
        match self {
            MouseButton::BtnLeft => Some(1),
            MouseButton::BtnMiddle => Some(2),
            MouseButton::BtnRight => Some(3),
            MouseButton::BtnSide | MouseButton::BtnBack => Some(8),
            MouseButton::BtnExtra | MouseButton::BtnForward => Some(9),
            MouseButton::BtnTask => None,
            MouseButton::WheelTiltLeft => Some(6),
            MouseButton::WheelTiltRight => Some(7),
        }
    }
}

/// The physical button whose Linux key code is `code`, if there is one.
/// This inverts `spec_linux_key_code` on its defined range.
pub open spec fn spec_button_from_linux_key_code(code: u16) -> Option<MouseButton> {
    if code == 0x110 {
        Some(MouseButton::BtnLeft)
    } else if code == 0x111 {
        Some(MouseButton::BtnRight)
    } else if code == 0x112 {
        Some(MouseButton::BtnMiddle)
    } else if code == 0x113 {
        Some(MouseButton::BtnSide)
    } else if code == 0x114 {
        Some(MouseButton::BtnExtra)
    } else if code == 0x115 {
        Some(MouseButton::BtnForward)
    } else if code == 0x116 {
        Some(MouseButton::BtnBack)
    } else if code == 0x117 {
        Some(MouseButton::BtnTask)
    } else {
        None
    }
}

/// Maps a Linux key code back to the button that reports it.
pub fn button_from_linux_key_code(code: u16) -> (r: Option<MouseButton>)
    ensures
        r == spec_button_from_linux_key_code(code),
{
    match code {
        0x110 => Some(MouseButton::BtnLeft),
        0x111 => Some(MouseButton::BtnRight),
        0x112 => Some(MouseButton::BtnMiddle),
        0x113 => Some(MouseButton::BtnSide),
        0x114 => Some(MouseButton::BtnExtra),
        0x115 => Some(MouseButton::BtnForward),
        0x116 => Some(MouseButton::BtnBack),
        0x117 => Some(MouseButton::BtnTask),
        _ => None,
    }
}

/// The two code maps invert each other: a button with a key code is the one
/// recovered from that code, and a code that names a button is that button's
/// own code.
pub proof fn lemma_key_code_maps_invert()
    ensures
        forall|b: MouseButton| #[trigger] spec_linux_key_code(b) matches Some(c)
            ==> spec_button_from_linux_key_code(c) == Some(b),
        forall|c: u16| #[trigger] spec_button_from_linux_key_code(c) matches Some(b)
            ==> spec_linux_key_code(b) == Some(c),
{
}

} // verus!
