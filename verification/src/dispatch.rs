use vstd::prelude::*;
use crate::buttons::{
    MouseButton, spec_linux_key_code, spec_x11_button_number, spec_button_from_linux_key_code,
    button_from_linux_key_code, lemma_key_code_maps_invert,
};
use crate::config::{Action, Binding};

verus! {

/// The index of the first-declared binding for `button`, if any. Duplicate
/// bindings on the same button are permitted; only the first one is ever
/// dispatched.
pub open spec fn spec_find_binding(bindings: Seq<Binding>, button: MouseButton) -> Option<int>
    decreases bindings.len(),
{
    if bindings.len() == 0 {
        None
    } else if bindings.first().button == button {
        Some(0)
    } else {
        match spec_find_binding(bindings.drop_first(), button) {
            Some(i) => Some(i + 1),
            None => None,
        }
    }
}

/// What `spec_find_binding` returns: the first index bound to the button, and
/// nothing when no binding mentions it.
pub proof fn lemma_find_binding_characterization(bindings: Seq<Binding>, button: MouseButton)
    ensures
        match spec_find_binding(bindings, button) {
            Some(k) => 0 <= k < bindings.len() && bindings[k].button == button
                && forall|j: int| 0 <= j < k ==> bindings[j].button != button,
            None => forall|j: int| 0 <= j < bindings.len() ==> bindings[j].button != button,
        },
    decreases bindings.len(),
{
    if bindings.len() == 0 {
    } else if bindings.first().button == button {
    } else {
        let rest = bindings.drop_first();
        lemma_find_binding_characterization(rest, button);
        match spec_find_binding(rest, button) {
            Some(k) => {
                assert(bindings[k + 1] == rest[k]);
                assert forall|j: int| 0 <= j < k + 1 implies bindings[j].button != button by {
                    if j > 0 {
                        assert(rest[j - 1] == bindings[j]);
                    }
                }
            },
            None => {
                assert forall|j: int| 0 <= j < bindings.len() implies bindings[j].button
                    != button by {
                    if j > 0 {
                        assert(rest[j - 1] == bindings[j]);
                    }
                }
            },
        }
    }
}

/// Dispatch always selects the first-declared binding: if some binding at
/// index `i` is bound to `button`, the lookup lands on a match no later than
/// `i`, with no earlier binding for the same button.
pub proof fn lemma_duplicates_first_declared_wins(
    bindings: Seq<Binding>,
    button: MouseButton,
    i: int,
)
    requires
        0 <= i < bindings.len(),
        bindings[i].button == button,
    ensures
        spec_find_binding(bindings, button) matches Some(k)
            && k <= i
            && bindings[k].button == button
            && forall|j: int| 0 <= j < k ==> bindings[j].button != button,
{
    lemma_find_binding_characterization(bindings, button);
}

/// Looks up the first-declared binding for a logical button.
pub fn find_binding(bindings: &Vec<Binding>, button: MouseButton) -> (r: Option<usize>)
    ensures
        match r {
            Some(i) => spec_find_binding(bindings@, button) == Some(i as int),
            None => spec_find_binding(bindings@, button) is None,
        },
{
    let n = bindings.len();
    for i in 0..n
        invariant
            n == bindings@.len(),
            forall|j: int| 0 <= j < i ==> bindings@[j].button != button,
    {
        if bindings[i].button == button {
            proof {
                lemma_find_binding_characterization(bindings@, button);
            }
            return Some(i);
        }
    }
    proof {
        lemma_find_binding_characterization(bindings@, button);
    }
    None
}

/// The action of the first-declared binding for `button`, if the table has
/// one: the momentary dispatch step between polling and execution.
pub fn action_for_button<'a>(bindings: &'a Vec<Binding>, button: MouseButton) -> (r: Option<
    &'a Action,
>)
    ensures
        match r {
            Some(a) => spec_find_binding(bindings@, button) matches Some(i) && *a == bindings@[i].action,
            None => spec_find_binding(bindings@, button) is None,
        },
{
    proof {
        lemma_find_binding_characterization(bindings@, button);
    }
    match find_binding(bindings, button) {
        Some(i) => Some(&bindings[i].action),
        None => None,
    }
}

/// Looks up the first-declared binding whose button reports the given Linux
/// key code, as the device backend sees presses.
pub fn find_binding_by_key_code(bindings: &Vec<Binding>, code: u16) -> (r: Option<usize>)
    ensures
        match r {
            Some(i) => i < bindings@.len()
                && spec_linux_key_code(bindings@[i as int].button) == Some(code)
                && forall|j: int| 0 <= j < i ==> spec_linux_key_code(bindings@[j].button) != Some(code),
            None => forall|j: int|
                0 <= j < bindings@.len() ==> spec_linux_key_code(bindings@[j].button) != Some(code),
        },
{
    proof {
        lemma_key_code_maps_invert();
    }
    match button_from_linux_key_code(code) {
        Some(button) => {
            proof {
                lemma_find_binding_characterization(bindings@, button);
                assert(forall|j: int| 0 <= j < bindings@.len()
                    ==> ((#[trigger] bindings@[j].button == button)
                        <==> spec_linux_key_code(bindings@[j].button) == Some(code)));
            }
            find_binding(bindings, button)
        },
        None => {
            proof {
                assert(forall|j: int| 0 <= j < bindings@.len()
                    ==> spec_linux_key_code(#[trigger] bindings@[j].button) != Some(code))
                by {
                    lemma_key_code_maps_invert();
                };
            }
            None
        },
    }
}

/// Looks up the first-declared binding whose button arrives as the given X11
/// core button number. Button numbers are shared between some buttons, so the
/// scan goes directly over the table.
pub fn find_binding_by_x11_button(bindings: &Vec<Binding>, detail: u32) -> (r: Option<usize>)
    ensures
        match r {
            Some(i) => i < bindings@.len()
                && spec_x11_button_number(bindings@[i as int].button) == Some(detail)
                && forall|j: int|
                    0 <= j < i ==> spec_x11_button_number(bindings@[j].button) != Some(detail),
            None => forall|j: int|
                0 <= j < bindings@.len()
                    ==> spec_x11_button_number(bindings@[j].button) != Some(detail),
        },
{
    let n = bindings.len();
    for i in 0..n
        invariant
            n == bindings@.len(),
            forall|j: int| 0 <= j < i ==> spec_x11_button_number(bindings@[j].button) != Some(detail),
    {
        let num = bindings[i].button.x11_button_number();
        match num {
            Some(d) => {
                if d == detail {
                    return Some(i);
                }
            },
            None => (),
        }
    }
    None
}

/// Whether the detected session is X11: an explicit session type of `x11`
/// (or `wayland`) decides; otherwise a display with no Wayland display
/// counts as X11.
pub open spec fn spec_is_x11_session(
    session_type: Option<String>,
    has_display: bool,
    has_wayland_display: bool,
) -> bool {
    match session_type {
        Some(t) => if t@ == "x11"@ {
            true
        } else if t@ == "wayland"@ {
            false
        } else {
            has_display && !has_wayland_display
        },
        None => has_display && !has_wayland_display,
    }
}

/// Decides once at startup, from the session environment, whether the X11
/// backend runs; the choice is never switched at runtime.
pub fn is_x11_session_env(
    session_type: Option<String>,
    has_display: bool,
    has_wayland_display: bool,
) -> (r: bool)
    ensures
        r == spec_is_x11_session(session_type, has_display, has_wayland_display),
{
    match session_type {
        Some(t) => {
            if t == "x11".to_owned() {
                true
            } else if t == "wayland".to_owned() {
                false
            } else {
                has_display && !has_wayland_display
            }
        },
        None => has_display && !has_wayland_display,
    }
}

} // verus!
