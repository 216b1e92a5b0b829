use vstd::prelude::*;
use crate::config::{Action, Binding};

verus! {

/// The Linux key code that evdev's fixed name table assigns to a symbolic
/// key name, if the name is known.
pub uninterp spec fn key_code_of(name: Seq<char>) -> Option<u16>;

/// Relies on evdev's `KeyCode::from_str`, which looks a key name up in the
/// crate's fixed name table: the result depends on the name alone.
#[verifier::external_body]
fn parse_key_name(name: &str) -> (r: Option<u16>)
    ensures
        r == key_code_of(name@),
{
    match <evdev::KeyCode as core::str::FromStr>::from_str(name) {
        Ok(code) => Some(code.code()),
        Err(_) => None,
    }
}

/// The key codes the listed names resolve to, in listed order; names the
/// table does not know are skipped.
pub open spec fn resolved_codes(names: Seq<String>) -> Seq<u16>
    decreases names.len(),
{
    if names.len() == 0 {
        Seq::empty()
    } else {
        let rest = resolved_codes(names.drop_last());
        match key_code_of(names.last()@) {
            Some(c) => rest.push(c),
            None => rest,
        }
    }
}

/// Resolves each listed key name to its key code, keeping listed order and
/// skipping unresolvable names.
pub fn resolve_key_codes(names: &Vec<String>) -> (codes: Vec<u16>)
    ensures
        codes@ == resolved_codes(names@),
{
    let mut codes: Vec<u16> = Vec::new();
    let n = names.len();
    for i in 0..n
        invariant
            n == names@.len(),
            codes@ == resolved_codes(names@.take(i as int)),
    {
        proof {
            assert(names@.take(i + 1).drop_last() =~= names@.take(i as int));
            assert(names@.take(i + 1).last() == names@[i as int]);
        }
        match parse_key_name(names[i].as_str()) {
            Some(c) => codes.push(c),
            None => (),
        }
    }
    proof {
        assert(names@.take(n as int) =~= names@);
    }
    codes
}

/// A planned chord injection: one batch of presses in listed order, then one
/// batch of releases in the exact reverse order. The press batch is emitted
/// wholly before any release; a press failure aborts before any release is
/// attempted.
pub struct Chord<C> {
    pub press: Vec<C>,
    pub release: Vec<C>,
}

/// Plans the chord for the given key codes.
pub fn chord_for<C: Copy>(codes: &Vec<C>) -> (c: Chord<C>)
    ensures
        c.press@ == codes@,
        c.release@ == codes@.reverse(),
{
    let n = codes.len();
    let mut press: Vec<C> = Vec::new();
    for i in 0..n
        invariant
            n == codes@.len(),
            press@ == codes@.take(i as int),
    {
        press.push(codes[i]);
    }
    proof {
        assert(codes@.take(n as int) =~= codes@);
    }
    let mut release: Vec<C> = Vec::new();
    let mut i: usize = n;
    while i > 0
        invariant
            i <= n,
            n == codes@.len(),
            release@.len() == n - i,
            forall|k: int| 0 <= k < release@.len() ==> release@[k] == codes@[n - 1 - k],
        decreases i,
    {
        i = i - 1;
        release.push(codes[i]);
    }
    proof {
        assert(release@ =~= codes@.reverse());
    }
    Chord { press, release }
}

/// The release sequence of a chord is exactly the reverse of its press
/// sequence: the key released `k`-th is the key that was pressed
/// `(N - 1 - k)`-th, for every chord of N keys.
pub proof fn lemma_release_reverses_press<C>(press: Seq<C>, release: Seq<C>)
    requires
        release == press.reverse(),
    ensures
        release.len() == press.len(),
        forall|k: int| 0 <= k < press.len() ==> release[k] == press[press.len() - 1 - k],
{
}

/// How a key-combo activation is carried out on the virtual-keyboard
/// backend.
pub enum KeyComboPlan {
    /// No synthetic keyboard exists: the combo is a logged no-op.
    Unavailable,
    /// No listed name resolved to a key code (in particular, the key list is
    /// empty): a logged no-op, no injection call is made.
    NoOp,
    /// Inject this chord.
    Emit(Chord<u16>),
}

/// Plans a key-combo action for the virtual-keyboard backend: a no-op
/// without a keyboard or without resolvable keys, otherwise a chord over the
/// resolved codes in listed order.
pub fn plan_key_combo(keyboard_available: bool, keys: &Vec<String>) -> (p: KeyComboPlan)
    ensures
        !keyboard_available ==> p is Unavailable,
        keyboard_available && resolved_codes(keys@).len() == 0 ==> p is NoOp,
        keyboard_available && resolved_codes(keys@).len() > 0 ==> (p matches KeyComboPlan::Emit(c)
            && c.press@ == resolved_codes(keys@)
            && c.release@ == resolved_codes(keys@).reverse()),
{
    if !keyboard_available {
        return KeyComboPlan::Unavailable;
    }
    let codes = resolve_key_codes(keys);
    if codes.len() == 0 {
        return KeyComboPlan::NoOp;
    }
    KeyComboPlan::Emit(chord_for(&codes))
}

/// Plans a command action: no spawn for an empty argv (a logged no-op),
/// otherwise the program named by the first element with the remaining
/// elements as its arguments.
pub fn command_plan(argv: &Vec<String>) -> (p: Option<(String, Vec<String>)>)
    ensures
        p is None <==> argv@.len() == 0,
        p matches Some(pair) ==> {
            &&& pair.0@ == argv@[0]@
            &&& pair.1@.len() == argv@.len() - 1
            &&& forall|i: int| 0 <= i < pair.1@.len() ==> pair.1@[i]@ == argv@[i + 1]@
        },
{
    if argv.len() == 0 {
        return None;
    }
    let program = argv[0].clone();
    let mut args: Vec<String> = Vec::new();
    let n = argv.len();
    let mut i: usize = 1;
    while i < n
        invariant
            1 <= i <= n,
            n == argv@.len(),
            args@.len() == i - 1,
            forall|k: int| 0 <= k < args@.len() ==> args@[k]@ == argv@[k + 1]@,
        decreases n - i,
    {
        args.push(argv[i].clone());
        i = i + 1;
    }
    Some((program, args))
}

/// The key names an action's combo lists; a command action lists none.
pub open spec fn spec_combo_keys(a: Action) -> Seq<String> {
    match a {
        Action::KeyCombo { keys } => keys@,
        Action::Command { .. } => Seq::empty(),
    }
}

/// Plans a chord injection for already-resolved codes: an empty code list
/// makes no injection call at all.
pub fn chord_plan<C: Copy>(codes: &Vec<C>) -> (p: Option<Chord<C>>)
    ensures
        p is None <==> codes@.len() == 0,
        p matches Some(c) ==> c.press@ == codes@ && c.release@ == codes@.reverse(),
{
    if codes.len() == 0 {
        None
    } else {
        Some(chord_for(codes))
    }
}

/// How an activation's action is carried out on the virtual-keyboard
/// backend. Every failure mode is a logged no-op: nothing here ever stops
/// the dispatch loop.
pub enum ActionPlan {
    /// Spawn this program with these arguments, detached, without waiting.
    Spawn(String, Vec<String>),
    /// Empty argv: log a warning, spawn nothing.
    EmptyCommand,
    /// No synthetic keyboard exists: log, inject nothing.
    ComboUnavailable,
    /// No listed key resolved (in particular an empty key list): log,
    /// inject nothing.
    ComboNoOp,
    /// Inject this chord on the synthetic keyboard.
    Inject(Chord<u16>),
}

/// Plans one action for the virtual-keyboard backend: the dispatch step
/// between binding lookup and execution.
pub fn plan_action(keyboard_available: bool, action: &Action) -> (p: ActionPlan)
    ensures
        action matches Action::Command { argv } ==> {
            &&& argv@.len() == 0 <==> p is EmptyCommand
            &&& argv@.len() > 0 ==> (p matches ActionPlan::Spawn(prog, args) && prog@ == argv@[0]@
                && args@.len() == argv@.len() - 1 && forall|i: int|
                0 <= i < args@.len() ==> args@[i]@ == argv@[i + 1]@)
        },
        action matches Action::KeyCombo { keys } ==> {
            &&& !keyboard_available ==> p is ComboUnavailable
            &&& keyboard_available && resolved_codes(keys@).len() == 0 ==> p is ComboNoOp
            &&& keyboard_available && resolved_codes(keys@).len() > 0 ==> (p matches
            ActionPlan::Inject(c) && c.press@ == resolved_codes(keys@) && c.release@
                == resolved_codes(keys@).reverse())
        },
{
    match action {
        Action::Command { argv } => {
            match command_plan(argv) {
                Some((prog, args)) => ActionPlan::Spawn(prog, args),
                None => ActionPlan::EmptyCommand,
            }
        },
        Action::KeyCombo { keys } => {
            match plan_key_combo(keyboard_available, keys) {
                KeyComboPlan::Unavailable => ActionPlan::ComboUnavailable,
                KeyComboPlan::NoOp => ActionPlan::ComboNoOp,
                KeyComboPlan::Emit(c) => ActionPlan::Inject(c),
            }
        },
    }
}

/// Whether some binding's key-combo action lists a name that resolves to
/// code `c`.
pub open spec fn spec_bound_combo_code(bindings: Seq<Binding>, c: u16) -> bool {
    exists|i: int, j: int|
        {
            &&& 0 <= i < bindings.len()
            &&& 0 <= j < spec_combo_keys(bindings[i].action).len()
            &&& key_code_of(#[trigger] spec_combo_keys(bindings[i].action)[j]@) == Some(c)
        }
}

/// Codes strictly ascending: sorted with no duplicates.
pub open spec fn spec_sorted_unique(codes: Seq<u16>) -> bool {
    forall|a: int, b: int| 0 <= a < b < codes.len() ==> codes[a] < codes[b]
}

/// Inserts a code into a sorted, duplicate-free vector, keeping it so.
fn insert_code(codes: &mut Vec<u16>, c: u16)
    requires
        spec_sorted_unique(old(codes)@),
    ensures
        spec_sorted_unique(final(codes)@),
        forall|x: u16| final(codes)@.contains(x) <==> (old(codes)@.contains(x) || x == c),
{
    let ghost before = codes@;
    let n = codes.len();
    let mut pos: usize = 0;
    while pos < n && codes[pos] < c
        invariant
            pos <= n,
            n == codes@.len(),
            codes@ == before,
            forall|k: int| 0 <= k < pos ==> codes@[k] < c,
        decreases n - pos,
    {
        pos = pos + 1;
    }
    if pos < n && codes[pos] == c {
        proof {
            assert(codes@[pos as int] == c);
            assert(codes@.contains(c));
        }
        return;
    }
    proof {
        assert(forall|k: int| pos <= k < before.len() ==> before[k] > c) by {
            assert forall|k: int| pos <= k < before.len() implies before[k] > c by {
                if k > pos {
                    assert(before[pos as int] < before[k]);
                }
            }
        }
    }
    codes.insert(pos, c);
    proof {
        before.insert_ensures(pos as int, c);
        assert forall|a: int, b: int| 0 <= a < b < codes@.len() implies codes@[a] < codes@[b] by {
            if b < pos {
            } else if a < pos && b == pos {
            } else if a == pos {
                assert(codes@[b] == before[b - 1]);
            } else if a > pos {
                assert(codes@[a] == before[a - 1] && codes@[b] == before[b - 1]);
            } else {
                assert(codes@[a] == before[a] && codes@[b] == before[b - 1]);
            }
        }
        assert forall|x: u16| codes@.contains(x) implies (before.contains(x) || x == c) by {
            let k = choose|k: int| 0 <= k < codes@.len() && codes@[k] == x;
            if k < pos {
                assert(before[k] == x);
            } else if k > pos {
                assert(before[k - 1] == x);
            }
        }
        assert forall|x: u16| (before.contains(x) || x == c) implies codes@.contains(x) by {
            if x == c {
                assert(codes@[pos as int] == x);
            } else {
                let k = choose|k: int| 0 <= k < before.len() && before[k] == x;
                if k < pos {
                    assert(codes@[k] == x);
                } else {
                    assert(codes@[k + 1] == x);
                }
            }
        }
    }
}

/// Collects the union of all key codes referenced by the key-combo actions
/// of the binding table: the minimal key set a synthetic keyboard must
/// advertise. Sorted ascending with duplicates removed.
pub fn collect_uinput_keys(bindings: &Vec<Binding>) -> (codes: Vec<u16>)
    ensures
        spec_sorted_unique(codes@),
        forall|c: u16| codes@.contains(c) <==> spec_bound_combo_code(bindings@, c),
{
    let mut codes: Vec<u16> = Vec::new();
    let n = bindings.len();
    for i in 0..n
        invariant
            n == bindings@.len(),
            spec_sorted_unique(codes@),
            forall|c: u16| codes@.contains(c) <==> spec_bound_combo_code(bindings@.take(i as int), c),
    {
        let ghost prefix = bindings@.take(i as int);
        let ghost next_prefix = bindings@.take(i + 1);
        proof {
            assert(next_prefix.drop_last() =~= prefix);
            assert(next_prefix.last() == bindings@[i as int]);
        }
        match &bindings[i].action {
            Action::KeyCombo { keys } => {
                let m = keys.len();
                for j in 0..m
                    invariant
                        m == keys@.len(),
                        spec_combo_keys(bindings@[i as int].action) == keys@,
                        n == bindings@.len(),
                        i < n,
                        spec_sorted_unique(codes@),
                        forall|c: u16| codes@.contains(c) <==> (spec_bound_combo_code(
                            bindings@.take(i as int),
                            c,
                        ) || exists|jj: int|
                            0 <= jj < j && #[trigger] key_code_of(keys@[jj]@) == Some(c)),
                {
                    match parse_key_name(keys[j].as_str()) {
                        Some(c) => {
                            insert_code(&mut codes, c);
                            proof {
                                assert(key_code_of(keys@[j as int]@) == Some(c));
                            }
                        },
                        None => (),
                    }
                }
                proof {
                    assert forall|c: u16| codes@.contains(c)
                        implies spec_bound_combo_code(next_prefix, c) by {
                        if spec_bound_combo_code(prefix, c) {
                            let (a, b): (int, int) = choose|a: int, b: int|
                                {
                                    &&& 0 <= a < prefix.len()
                                    &&& 0 <= b < spec_combo_keys(prefix[a].action).len()
                                    &&& key_code_of(spec_combo_keys(prefix[a].action)[b]@)
                                        == Some(c)
                                };
                            assert(next_prefix[a] == prefix[a]);
                            assert(key_code_of(spec_combo_keys(next_prefix[a].action)[b]@)
                                == Some(c));
                        } else {
                            let jj = choose|jj: int|
                                0 <= jj < keys@.len() && #[trigger] key_code_of(keys@[jj]@)
                                    == Some(c);
                            assert(next_prefix[i as int] == bindings@[i as int]);
                            assert(key_code_of(spec_combo_keys(next_prefix[i as int].action)[jj]@)
                                == Some(c));
                        }
                    }
                    assert forall|c: u16| spec_bound_combo_code(next_prefix, c)
                        implies codes@.contains(c) by {
                        let (a, b): (int, int) = choose|a: int, b: int|
                            {
                                &&& 0 <= a < next_prefix.len()
                                &&& 0 <= b < spec_combo_keys(next_prefix[a].action).len()
                                &&& key_code_of(spec_combo_keys(next_prefix[a].action)[b]@)
                                    == Some(c)
                            };
                        if a < i {
                            assert(prefix[a] == next_prefix[a]);
                            assert(key_code_of(spec_combo_keys(prefix[a].action)[b]@) == Some(c));
                            assert(spec_bound_combo_code(prefix, c));
                        } else {
                            assert(next_prefix[a] == bindings@[i as int]);
                            assert(key_code_of(keys@[b]@) == Some(c));
                        }
                    }
                }
            },
            Action::Command { .. } => {
                proof {
                    assert(spec_combo_keys(bindings@[i as int].action).len() == 0);
                    assert forall|c: u16| codes@.contains(c)
                        implies spec_bound_combo_code(next_prefix, c) by {
                        let (a, b): (int, int) = choose|a: int, b: int|
                            {
                                &&& 0 <= a < prefix.len()
                                &&& 0 <= b < spec_combo_keys(prefix[a].action).len()
                                &&& key_code_of(spec_combo_keys(prefix[a].action)[b]@) == Some(c)
                            };
                        assert(next_prefix[a] == prefix[a]);
                        assert(key_code_of(spec_combo_keys(next_prefix[a].action)[b]@) == Some(c));
                    }
                    assert forall|c: u16| spec_bound_combo_code(next_prefix, c)
                        implies codes@.contains(c) by {
                        let (a, b): (int, int) = choose|a: int, b: int|
                            {
                                &&& 0 <= a < next_prefix.len()
                                &&& 0 <= b < spec_combo_keys(next_prefix[a].action).len()
                                &&& key_code_of(spec_combo_keys(next_prefix[a].action)[b]@)
                                    == Some(c)
                            };
                        assert(a < i);
                        assert(prefix[a] == next_prefix[a]);
                        assert(key_code_of(spec_combo_keys(prefix[a].action)[b]@) == Some(c));
                        assert(spec_bound_combo_code(prefix, c));
                    }
                }
            },
        }
    }
    proof {
        assert(bindings@.take(n as int) =~= bindings@);
    }
    codes
}

} // verus!
