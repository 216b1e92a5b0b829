use vstd::prelude::*;
use crate::buttons::{MouseButton, spec_linux_key_code};
use crate::classify::{REL_HWHEEL, REL_HWHEEL_HI_RES};
use crate::config::Binding;

verus! {

/// Whether any binding mentions a wheel-tilt pseudo-button.
pub open spec fn spec_wants_wheel_tilt(bindings: Seq<Binding>) -> bool {
    exists|i: int|
        0 <= i < bindings.len() && ((#[trigger] bindings[i]).button == MouseButton::WheelTiltLeft
            || bindings[i].button == MouseButton::WheelTiltRight)
}

/// Whether the device's supported key codes include the code of some bound
/// button.
pub open spec fn spec_supports_bound_key(bindings: Seq<Binding>, keys: Seq<u16>) -> bool {
    exists|i: int, j: int|
        0 <= i < bindings.len() && 0 <= j < keys.len() && spec_linux_key_code(
            (#[trigger] bindings[i]).button,
        ) == Some(#[trigger] keys[j])
}

/// Whether the device reports a horizontal-wheel axis, normal or
/// high-resolution.
pub open spec fn spec_has_hwheel(axes: Seq<u16>) -> bool {
    exists|j: int|
        0 <= j < axes.len() && ((#[trigger] axes[j]) == REL_HWHEEL || axes[j]
            == REL_HWHEEL_HI_RES)
}

/// Whether a code list contains a code.
fn codes_contain(codes: &Vec<u16>, c: u16) -> (r: bool)
    ensures
        r == codes@.contains(c),
{
    let n = codes.len();
    for i in 0..n
        invariant
            n == codes@.len(),
            forall|k: int| 0 <= k < i ==> codes@[k] != c,
    {
        if codes[i] == c {
            return true;
        }
    }
    proof {
        if codes@.contains(c) {
            let k = choose|k: int| 0 <= k < codes@.len() && codes@[k] == c;
        }
    }
    false
}

/// Whether a device qualifies for discovery: its reported capability set can
/// produce at least one bound event, that is, it supports the key code of a
/// bound button, or a horizontal-wheel axis while some wheel tilt is bound.
pub fn device_qualifies(
    bindings: &Vec<Binding>,
    supported_keys: &Vec<u16>,
    rel_axes: &Vec<u16>,
) -> (r: bool)
    ensures
        r == (spec_supports_bound_key(bindings@, supported_keys@) || (spec_wants_wheel_tilt(
            bindings@,
        ) && spec_has_hwheel(rel_axes@))),
{
    let n = bindings.len();
    let mut keys_match = false;
    let mut wants_tilt = false;
    for i in 0..n
        invariant
            n == bindings@.len(),
            keys_match == spec_supports_bound_key(bindings@.take(i as int), supported_keys@),
            wants_tilt == spec_wants_wheel_tilt(bindings@.take(i as int)),
    {
        let ghost prefix = bindings@.take(i as int);
        let ghost prefix1 = bindings@.take(i + 1);
        proof {
            assert(prefix1[i as int] == bindings@[i as int]);
            assert(forall|k: int| 0 <= k < i ==> prefix1[k] == prefix[k]);
        }
        let button = bindings[i].button;
        if !keys_match {
            match button.linux_key_code() {
                Some(c) => {
                    if codes_contain(supported_keys, c) {
                        keys_match = true;
                        proof {
                            let j = choose|j: int|
                                0 <= j < supported_keys@.len() && supported_keys@[j] == c;
                            assert(spec_linux_key_code(prefix1[i as int].button) == Some(
                                supported_keys@[j],
                            ));
                        }
                    }
                },
                None => (),
            }
        }
        if !wants_tilt {
            match button {
                MouseButton::WheelTiltLeft | MouseButton::WheelTiltRight => {
                    wants_tilt = true;
                    proof {
                        assert((prefix1[i as int]).button == MouseButton::WheelTiltLeft
                            || (prefix1[i as int]).button == MouseButton::WheelTiltRight);
                    }
                },
                _ => (),
            }
        }
        proof {
            if spec_supports_bound_key(prefix, supported_keys@) {
                let (a, b): (int, int) = choose|a: int, b: int|
                    0 <= a < prefix.len() && 0 <= b < supported_keys@.len() && spec_linux_key_code(
                        (#[trigger] prefix[a]).button,
                    ) == Some(#[trigger] supported_keys@[b]);
                assert(prefix1[a] == prefix[a]);
                assert(spec_supports_bound_key(prefix1, supported_keys@));
            }
            if spec_wants_wheel_tilt(prefix) {
                let a = choose|a: int|
                    0 <= a < prefix.len() && ((#[trigger] prefix[a]).button
                        == MouseButton::WheelTiltLeft || prefix[a].button
                        == MouseButton::WheelTiltRight);
                assert(prefix1[a] == prefix[a]);
                assert(spec_wants_wheel_tilt(prefix1));
            }
            if !keys_match {
                if spec_supports_bound_key(prefix1, supported_keys@) {
                    let (a, b): (int, int) = choose|a: int, b: int|
                        0 <= a < prefix1.len() && 0 <= b < supported_keys@.len()
                            && spec_linux_key_code((#[trigger] prefix1[a]).button) == Some(
                            #[trigger] supported_keys@[b],
                        );
                    if a < i {
                        assert(prefix[a] == prefix1[a]);
                        assert(spec_supports_bound_key(prefix, supported_keys@));
                    } else {
                        assert(supported_keys@.contains(supported_keys@[b]));
                    }
                    assert(false);
                }
            }
            if !wants_tilt {
                if spec_wants_wheel_tilt(prefix1) {
                    let a = choose|a: int|
                        0 <= a < prefix1.len() && ((#[trigger] prefix1[a]).button
                            == MouseButton::WheelTiltLeft || prefix1[a].button
                            == MouseButton::WheelTiltRight);
                    if a < i {
                        assert(prefix[a] == prefix1[a]);
                        assert(spec_wants_wheel_tilt(prefix));
                    }
                    assert(false);
                }
            }
        }
    }
    proof {
        assert(bindings@.take(n as int) =~= bindings@);
    }
    if keys_match {
        return true;
    }
    if !wants_tilt {
        return false;
    }
    let m = rel_axes.len();
    for j in 0..m
        invariant
            m == rel_axes@.len(),
            spec_wants_wheel_tilt(bindings@),
            forall|k: int| 0 <= k < j ==> ((#[trigger] rel_axes@[k]) != REL_HWHEEL && rel_axes@[k]
                != REL_HWHEEL_HI_RES),
    {
        let axis = rel_axes[j];
        if axis == REL_HWHEEL || axis == REL_HWHEEL_HI_RES {
            proof {
                assert((#[trigger] rel_axes@[j as int]) == REL_HWHEEL || rel_axes@[j as int]
                    == REL_HWHEEL_HI_RES);
            }
            return true;
        }
    }
    proof {
        if spec_has_hwheel(rel_axes@) {
            let k = choose|k: int|
                0 <= k < rel_axes@.len() && ((#[trigger] rel_axes@[k]) == REL_HWHEEL
                    || rel_axes@[k] == REL_HWHEEL_HI_RES);
        }
    }
    false
}

/// The outcome of one non-blocking read attempt on one open device.
#[derive(Clone, Copy, Debug, PartialEq, Eq, Structural)]
pub enum ReadStatus {
    /// The read delivered a batch of events.
    Ready,
    /// The read would block: not an error, the device stays open.
    WouldBlock,
    /// The read failed for another reason: the device is dropped once the
    /// current pass completes.
    Failed,
}

/// What the dispatch loop does after a full poll pass.
#[derive(Clone, Copy, Debug, PartialEq, Eq, Structural)]
pub enum LoopDirective {
    /// Activations were seen: poll again at once.
    Continue,
    /// An idle pass: sleep a short fixed interval before the next pass.
    Sleep,
    /// Every device is gone: signal end-of-input and exit with a fatal error.
    Exit,
}

/// The devices that survive a poll pass: those whose read did not fail,
/// in their original order.
pub open spec fn spec_surviving(ids: Seq<u64>, statuses: Seq<ReadStatus>) -> Seq<u64>
    decreases ids.len(),
{
    if ids.len() == 0 {
        Seq::empty()
    } else {
        let rest = spec_surviving(ids.drop_last(), statuses.drop_last());
        if statuses.last() is Failed {
            rest
        } else {
            rest.push(ids.last())
        }
    }
}

/// The directive after a pass: exit once no device is left, otherwise sleep
/// exactly when the pass produced no activation.
pub open spec fn spec_directive(devices_left: nat, saw_activation: bool) -> LoopDirective {
    if devices_left == 0 {
        LoopDirective::Exit
    } else if saw_activation {
        LoopDirective::Continue
    } else {
        LoopDirective::Sleep
    }
}

/// If every read of a pass fails, the pass leaves no devices, and the next
/// directive is the fatal exit, whatever the pass produced.
pub proof fn lemma_total_loss_exits(ids: Seq<u64>, statuses: Seq<ReadStatus>, saw: bool)
    requires
        statuses.len() == ids.len(),
        forall|i: int| 0 <= i < statuses.len() ==> statuses[i] is Failed,
    ensures
        spec_surviving(ids, statuses).len() == 0,
        spec_directive(spec_surviving(ids, statuses).len(), saw) is Exit,
    decreases ids.len(),
{
    if ids.len() > 0 {
        lemma_total_loss_exits(ids.drop_last(), statuses.drop_last(), saw);
    }
}

/// The set of open raw input devices the multiplexer polls, by caller-chosen
/// distinct handles.
pub struct DeviceSet {
    ids: Vec<u64>,
}

impl View for DeviceSet {
    type V = Seq<u64>;

    closed spec fn view(&self) -> Seq<u64> {
        self.ids@
    }
}

impl DeviceSet {
    /// All open devices are distinct.
    pub open spec fn wf(self) -> bool {
        forall|a: int, b: int| 0 <= a < b < self@.len() ==> self@[a] != self@[b]
    }

    /// Opens the multiplexer over the given device handles.
    pub fn new(ids: Vec<u64>) -> (s: Self)
        requires
            forall|a: int, b: int| 0 <= a < b < ids@.len() ==> ids@[a] != ids@[b],
        ensures
            s@ == ids@,
            s.wf(),
    {
        DeviceSet { ids }
    }

    /// How many devices are still open.
    pub fn len(&self) -> (n: usize)
        ensures
            n == self@.len(),
    {
        self.ids.len()
    }

    /// The handle of the `i`-th open device.
    pub fn id_at(&self, i: usize) -> (id: u64)
        requires
            i < self@.len(),
        ensures
            id == self@[i as int],
    {
        self.ids[i]
    }

    /// Applies the outcome of one full poll pass, `statuses[i]` being the
    /// read outcome of device `self@[i]`: a device whose read would block
    /// stays in the active set, a device whose read failed is removed exactly
    /// once, and no device ever joins mid-run.
    pub fn apply_pass(&mut self, statuses: &Vec<ReadStatus>)
        requires
            old(self).wf(),
            statuses@.len() == old(self)@.len(),
            old(self)@.len() > 0,
        ensures
            final(self).wf(),
            final(self)@ == spec_surviving(old(self)@, statuses@),
            forall|i: int|
                0 <= i < statuses@.len() && !(statuses@[i] is Failed)
                    ==> final(self)@.contains(old(self)@[i]),
            forall|i: int|
                0 <= i < statuses@.len() && statuses@[i] is Failed
                    ==> !final(self)@.contains(old(self)@[i]),
            forall|x: u64| final(self)@.contains(x) ==> old(self)@.contains(x),
    {
        let ghost old_ids = self.ids@;
        let mut kept: Vec<u64> = Vec::new();
        let n = self.ids.len();
        for i in 0..n
            invariant
                n == old_ids.len(),
                self.ids@ == old_ids,
                statuses@.len() == old_ids.len(),
                forall|a: int, b: int| 0 <= a < b < old_ids.len() ==> old_ids[a] != old_ids[b],
                kept@ == spec_surviving(old_ids.take(i as int), statuses@.take(i as int)),
                forall|j: int|
                    0 <= j < i && !(statuses@[j] is Failed) ==> kept@.contains(old_ids[j]),
                forall|x: u64| kept@.contains(x)
                    ==> exists|j: int| 0 <= j < i && old_ids[j] == x && !(statuses@[j] is Failed),
                forall|a: int, b: int| 0 <= a < b < kept@.len() ==> kept@[a] != kept@[b],
        {
            proof {
                assert(old_ids.take(i + 1).drop_last() =~= old_ids.take(i as int));
                assert(statuses@.take(i + 1).drop_last() =~= statuses@.take(i as int));
            }
            let ghost kept_before = kept@;
            let failed = match statuses[i] {
                ReadStatus::Failed => true,
                _ => false,
            };
            if !failed {
                proof {
                    if kept@.contains(old_ids[i as int]) {
                        let j = choose|j: int|
                            0 <= j < i && old_ids[j] == old_ids[i as int]
                                && !(statuses@[j] is Failed);
                        assert(false);
                    }
                }
                kept.push(self.ids[i]);
            }
            proof {
                assert forall|j: int|
                    0 <= j < i + 1 && !(statuses@[j] is Failed)
                        implies kept@.contains(old_ids[j]) by {
                    if j < i {
                        let k = choose|k: int|
                            0 <= k < kept_before.len() && kept_before[k] == old_ids[j];
                        assert(kept@[k] == old_ids[j]);
                    } else {
                        assert(kept@[kept@.len() - 1] == old_ids[j]);
                    }
                }
                assert forall|x: u64| kept@.contains(x)
                    implies exists|j: int|
                        0 <= j < i + 1 && old_ids[j] == x && !(statuses@[j] is Failed) by {
                    let k = choose|k: int| 0 <= k < kept@.len() && kept@[k] == x;
                    if k < kept_before.len() {
                        assert(kept_before[k] == x);
                        assert(kept_before.contains(x));
                    } else {
                        assert(old_ids[i as int] == x && !(statuses@[i as int] is Failed));
                    }
                }
            }
        }
        proof {
            assert(old_ids.take(n as int) =~= old_ids);
            assert(statuses@.take(n as int) =~= statuses@);
        }
        self.ids = kept;
        proof {
            assert forall|i: int|
                0 <= i < statuses@.len() && statuses@[i] is Failed
                    implies !self.ids@.contains(old_ids[i]) by {
                if self.ids@.contains(old_ids[i]) {
                    let j = choose|j: int|
                        0 <= j < old_ids.len() && old_ids[j] == old_ids[i]
                            && !(statuses@[j] is Failed);
                    assert(j != i);
                    assert(false);
                }
            }
        }
    }

    /// The directive after a pass: a fatal exit exactly when the active set
    /// has become empty, otherwise sleep exactly on an idle pass.
    pub fn directive(&self, saw_activation: bool) -> (d: LoopDirective)
        ensures
            d == spec_directive(self@.len(), saw_activation),
            d is Exit <==> self@.len() == 0,
    {
        if self.ids.len() == 0 {
            LoopDirective::Exit
        } else if saw_activation {
            LoopDirective::Continue
        } else {
            LoopDirective::Sleep
        }
    }
}

} // verus!
