use vstd::prelude::*;
use crate::buttons::MouseButton;

verus! {

/// What a button press triggers: spawning a detached command, or injecting a
/// synthetic keyboard chord. A chord presses its keys in listed order and
/// releases them in the exact reverse order.
#[derive(Debug, Clone, PartialEq, Eq)]
pub enum Action {
    Command { argv: Vec<String> },
    KeyCombo { keys: Vec<String> },
}

/// One (logical button, action) pair of the binding table.
#[derive(Debug, Clone, PartialEq, Eq)]
pub struct Binding {
    pub button: MouseButton,
    pub action: Action,
}

/// The fully parsed configuration: an optional explicit device path and the
/// ordered binding table. Lookups go by first match in declaration order.
#[derive(Debug, Clone, PartialEq, Eq)]
pub struct Config {
    pub device_by_path: Option<String>,
    pub bindings: Vec<Binding>,
}

/// A binding whose action is a single-key chord on the given key name.
pub open spec fn spec_single_key_binding(b: Binding, button: MouseButton, key: Seq<char>) -> bool {
    &&& b.button == button
    &&& b.action matches Action::KeyCombo { keys } && keys@.len() == 1 && keys@[0]@ == key
}

impl Default for Config {
    /// The stock configuration: no device override, and the two side buttons
    /// bound to browser back/forward with the two extra buttons bound to the
    /// volume keys.
    fn default() -> (c: Self)
        ensures
            c.device_by_path is None,
            c.bindings@.len() == 4,
            spec_single_key_binding(c.bindings@[0], MouseButton::BtnSide, "KEY_BACK"@),
            spec_single_key_binding(c.bindings@[1], MouseButton::BtnExtra, "KEY_FORWARD"@),
            spec_single_key_binding(c.bindings@[2], MouseButton::BtnForward, "KEY_VOLUMEUP"@),
            spec_single_key_binding(c.bindings@[3], MouseButton::BtnBack, "KEY_VOLUMEDOWN"@),
    {
        let mut bindings: Vec<Binding> = Vec::new();
        let mut back_keys: Vec<String> = Vec::new();
        back_keys.push("KEY_BACK".to_owned());
        bindings.push(Binding {
            button: MouseButton::BtnSide,
            action: Action::KeyCombo { keys: back_keys },
        });
        let mut forward_keys: Vec<String> = Vec::new();
        forward_keys.push("KEY_FORWARD".to_owned());
        bindings.push(Binding {
            button: MouseButton::BtnExtra,
            action: Action::KeyCombo { keys: forward_keys },
        });
        let mut volume_up_keys: Vec<String> = Vec::new();
        volume_up_keys.push("KEY_VOLUMEUP".to_owned());
        bindings.push(Binding {
            button: MouseButton::BtnForward,
            action: Action::KeyCombo { keys: volume_up_keys },
        });
        let mut volume_down_keys: Vec<String> = Vec::new();
        volume_down_keys.push("KEY_VOLUMEDOWN".to_owned());
        bindings.push(Binding {
            button: MouseButton::BtnBack,
            action: Action::KeyCombo { keys: volume_down_keys },
        });
        Config { device_by_path: None, bindings }
    }
}

} // verus!
