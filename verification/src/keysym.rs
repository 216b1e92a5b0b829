use vstd::prelude::*;
use vstd::string::StrSliceExecFns;
use crate::config::Action;
use crate::executor::{Chord, chord_plan, command_plan};

verus! {

// Standard X11 keysym numbers for the keys the static name table covers.
pub const XF86_AUDIO_LOWER_VOLUME: u32 = 0x1008FF11;
pub const XF86_AUDIO_MUTE: u32 = 0x1008FF12;
pub const XF86_AUDIO_RAISE_VOLUME: u32 = 0x1008FF13;
pub const XF86_BACK: u32 = 0x1008FF26;
pub const XF86_FORWARD: u32 = 0x1008FF27;
pub const XK_SHIFT_L: u32 = 0xFFE1;
pub const XK_SHIFT_R: u32 = 0xFFE2;
pub const XK_CONTROL_L: u32 = 0xFFE3;
pub const XK_CONTROL_R: u32 = 0xFFE4;
pub const XK_ALT_L: u32 = 0xFFE9;
pub const XK_ALT_R: u32 = 0xFFEA;
pub const XK_SUPER_L: u32 = 0xFFEB;
pub const XK_SUPER_R: u32 = 0xFFEC;
pub const XK_LEFT: u32 = 0xFF51;
pub const XK_RIGHT: u32 = 0xFF53;

/// Compares two string slices by their character sequences.
pub fn str_eq(a: &str, b: &str) -> (r: bool)
    ensures
        r == (a@ == b@),
{
    let n = a.unicode_len();
    if n != b.unicode_len() {
        return false;
    }
    let mut i: usize = 0;
    while i < n
        invariant
            i <= n,
            n == a@.len(),
            n == b@.len(),
            forall|k: int| 0 <= k < i ==> a@[k] == b@[k],
        decreases n - i,
    {
        if a.get_char(i) != b.get_char(i) {
            return false;
        }
        i = i + 1;
    }
    proof {
        assert(a@ =~= b@);
    }
    true
}

/// The keysym of a single-letter key name `KEY_A` .. `KEY_Z`: the Latin
/// lower-case letter keysyms equal the ASCII codes of the lower-case
/// letters, 32 above their upper-case codes.
pub open spec fn spec_letter_keysym(name: Seq<char>) -> Option<u32> {
    if name.len() == 5 && name.take(4) == "KEY_"@ && 65 <= name[4] as u32 <= 90 {
        Some((name[4] as u32 + 32) as u32)
    } else {
        None
    }
}

/// The static table from Linux key names to X11 keysyms: media and
/// navigation keys, modifier keys, arrows, and single letters; every other
/// name has no symbol and is unresolvable upstream.
pub open spec fn spec_key_name_keysym(name: Seq<char>) -> Option<u32> {
    if name == "KEY_VOLUMEUP"@ {
        Some(XF86_AUDIO_RAISE_VOLUME)
    } else if name == "KEY_VOLUMEDOWN"@ {
        Some(XF86_AUDIO_LOWER_VOLUME)
    } else if name == "KEY_MUTE"@ {
        Some(XF86_AUDIO_MUTE)
    } else if name == "KEY_BACK"@ {
        Some(XF86_BACK)
    } else if name == "KEY_FORWARD"@ {
        Some(XF86_FORWARD)
    } else if name == "KEY_LEFTALT"@ {
        Some(XK_ALT_L)
    } else if name == "KEY_RIGHTALT"@ {
        Some(XK_ALT_R)
    } else if name == "KEY_LEFTCTRL"@ {
        Some(XK_CONTROL_L)
    } else if name == "KEY_RIGHTCTRL"@ {
        Some(XK_CONTROL_R)
    } else if name == "KEY_LEFTSHIFT"@ {
        Some(XK_SHIFT_L)
    } else if name == "KEY_RIGHTSHIFT"@ {
        Some(XK_SHIFT_R)
    } else if name == "KEY_LEFTMETA"@ {
        Some(XK_SUPER_L)
    } else if name == "KEY_RIGHTMETA"@ {
        Some(XK_SUPER_R)
    } else if name == "KEY_LEFT"@ {
        Some(XK_LEFT)
    } else if name == "KEY_RIGHT"@ {
        Some(XK_RIGHT)
    } else {
        spec_letter_keysym(name)
    }
}

/// Maps a configured Linux key name to its X11 keysym, if the static
/// table knows it.
pub fn linux_key_name_to_x11_keysym(name: &str) -> (r: Option<u32>)
    ensures
        r == spec_key_name_keysym(name@),
{
    if str_eq(name, "KEY_VOLUMEUP") {
        Some(XF86_AUDIO_RAISE_VOLUME)
    } else if str_eq(name, "KEY_VOLUMEDOWN") {
        Some(XF86_AUDIO_LOWER_VOLUME)
    } else if str_eq(name, "KEY_MUTE") {
        Some(XF86_AUDIO_MUTE)
    } else if str_eq(name, "KEY_BACK") {
        Some(XF86_BACK)
    } else if str_eq(name, "KEY_FORWARD") {
        Some(XF86_FORWARD)
    } else if str_eq(name, "KEY_LEFTALT") {
        Some(XK_ALT_L)
    } else if str_eq(name, "KEY_RIGHTALT") {
        Some(XK_ALT_R)
    } else if str_eq(name, "KEY_LEFTCTRL") {
        Some(XK_CONTROL_L)
    } else if str_eq(name, "KEY_RIGHTCTRL") {
        Some(XK_CONTROL_R)
    } else if str_eq(name, "KEY_LEFTSHIFT") {
        Some(XK_SHIFT_L)
    } else if str_eq(name, "KEY_RIGHTSHIFT") {
        Some(XK_SHIFT_R)
    } else if str_eq(name, "KEY_LEFTMETA") {
        Some(XK_SUPER_L)
    } else if str_eq(name, "KEY_RIGHTMETA") {
        Some(XK_SUPER_R)
    } else if str_eq(name, "KEY_LEFT") {
        Some(XK_LEFT)
    } else if str_eq(name, "KEY_RIGHT") {
        Some(XK_RIGHT)
    } else if name.unicode_len() == 5 {
        let prefix = name.substring_char(0, 4);
        proof {
            assert(prefix@ =~= name@.take(4));
        }
        if str_eq(prefix, "KEY_") {
            let c = name.get_char(4);
            let code = c as u32;
            if 65 <= code && code <= 90 {
                Some(code + 32)
            } else {
                None
            }
        } else {
            None
        }
    } else {
        None
    }
}

/// The keycode recorded for a keysym: the first entry for it, if any.
pub closed spec fn spec_lookup_pairs(pairs: Seq<(u32, u8)>, sym: u32) -> Option<u8>
    decreases pairs.len(),
{
    if pairs.len() == 0 {
        None
    } else if pairs.first().0 == sym {
        Some(pairs.first().1)
    } else {
        spec_lookup_pairs(pairs.drop_first(), sym)
    }
}

/// Appending an entry changes a lookup only for a keysym not seen before.
proof fn lemma_lookup_push(pairs: Seq<(u32, u8)>, p: (u32, u8), sym: u32)
    ensures
        spec_lookup_pairs(pairs.push(p), sym) == (match spec_lookup_pairs(pairs, sym) {
            Some(c) => Some(c),
            None => if p.0 == sym {
                Some(p.1)
            } else {
                None
            },
        }),
    decreases pairs.len(),
{
    if pairs.len() == 0 {
        assert(pairs.push(p).first() == p);
        assert(pairs.push(p).len() == 1);
        assert(pairs.push(p).drop_first() =~= Seq::<(u32, u8)>::empty());
        assert(spec_lookup_pairs(pairs, sym) is None);
        assert(spec_lookup_pairs(Seq::<(u32, u8)>::empty(), sym) is None);
        if p.0 == sym {
            assert(spec_lookup_pairs(pairs.push(p), sym) == Some(p.1));
        } else {
            assert(spec_lookup_pairs(pairs.push(p), sym) == spec_lookup_pairs(
                pairs.push(p).drop_first(),
                sym,
            ));
        }
    } else {
        assert(pairs.push(p).first() == pairs.first());
        assert(pairs.push(p).drop_first() =~= pairs.drop_first().push(p));
        lemma_lookup_push(pairs.drop_first(), p, sym);
    }
}

/// The symbol-to-keycode map of the live keyboard layout, built once at
/// startup and immutable for the process lifetime.
pub struct KeysymMap {
    pairs: Vec<(u32, u8)>,
}

impl KeysymMap {
    /// The keycode this map resolves a keysym to.
    pub closed spec fn spec_lookup(self, sym: u32) -> Option<u8> {
        spec_lookup_pairs(self.pairs@, sym)
    }

    /// Whether the map has a keycode for the keysym.
    pub open spec fn spec_contains(self, sym: u32) -> bool {
        self.spec_lookup(sym) is Some
    }

    /// A map that resolves nothing.
    pub fn empty() -> (m: Self)
        ensures
            forall|sym: u32| m.spec_lookup(sym) is None,
    {
        KeysymMap { pairs: Vec::new() }
    }

    /// Resolves a keysym to its recorded keycode.
    pub fn lookup(&self, sym: u32) -> (r: Option<u8>)
        ensures
            r == self.spec_lookup(sym),
    {
        let n = self.pairs.len();
        proof {
            assert(self.pairs@.skip(0) =~= self.pairs@);
        }
        for i in 0..n
            invariant
                n == self.pairs@.len(),
                spec_lookup_pairs(self.pairs@.skip(i as int), sym) == self.spec_lookup(sym),
        {
            proof {
                assert(self.pairs@.skip(i as int).first() == self.pairs@[i as int]);
                assert(self.pairs@.skip(i as int).drop_first() =~= self.pairs@.skip(i + 1));
            }
            if self.pairs[i].0 == sym {
                return Some(self.pairs[i].1);
            }
        }
        proof {
            assert(self.pairs@.skip(n as int) =~= Seq::<(u32, u8)>::empty());
        }
        None
    }

    /// Records a keycode for a keysym unless one is already recorded:
    /// first-seen-wins.
    fn insert_first(&mut self, sym: u32, code: u8)
        ensures
            old(self).spec_lookup(sym) is Some ==> *final(self) == *old(self),
            old(self).spec_lookup(sym) is None ==> {
                &&& final(self).spec_lookup(sym) == Some(code)
                &&& forall|s2: u32|
                    s2 != sym ==> final(self).spec_lookup(s2) == old(self).spec_lookup(s2)
            },
    {
        match self.lookup(sym) {
            Some(_) => (),
            None => {
                proof {
                    assert forall|s2: u32|
                        spec_lookup_pairs(self.pairs@.push((sym, code)), s2) == (match
                            spec_lookup_pairs(self.pairs@, s2) {
                            Some(c) => Some(c),
                            None => if s2 == sym {
                                Some(code)
                            } else {
                                None
                            },
                        }) by {
                        lemma_lookup_push(self.pairs@, (sym, code), s2);
                    }
                }
                self.pairs.push((sym, code));
            },
        }
    }
}

/// Whether position `j` holds the first occurrence of `sym` in the keysym
/// table.
pub open spec fn spec_first_occurrence(s: Seq<u32>, sym: u32, j: int) -> bool {
    &&& 0 <= j < s.len()
    &&& s[j] == sym
    &&& forall|k: int| 0 <= k < j ==> s[k] != sym
}

/// The keycode the mapping reply assigns to table position `j`: the minimum
/// keycode plus the chunk index, wrapped to a byte.
pub open spec fn spec_chunk_keycode(min_keycode: u8, per: int, j: int) -> u8
    recommends
        per > 0,
{
    (((min_keycode as int) + ((j / per) % 256)) % 256) as u8
}

/// Builds the keysym map from the keyboard-mapping reply: `keysyms` holds
/// `keysyms_per_keycode` symbols for each keycode starting at `min_keycode`;
/// every non-null symbol is recorded with the keycode of its chunk,
/// first-seen-wins when several keycodes produce the same symbol.
pub fn build_keysym_map(min_keycode: u8, keysyms_per_keycode: usize, keysyms: &Vec<u32>) -> (m:
    KeysymMap)
    ensures
        keysyms_per_keycode == 0 ==> forall|sym: u32| m.spec_lookup(sym) is None,
        keysyms_per_keycode > 0 ==> forall|sym: u32|
            #[trigger] m.spec_contains(sym) <==> (sym != 0 && keysyms@.contains(sym)),
        keysyms_per_keycode > 0 ==> forall|sym: u32, j: int|
            sym != 0 && #[trigger] spec_first_occurrence(keysyms@, sym, j) ==> m.spec_lookup(sym)
                == Some(spec_chunk_keycode(min_keycode, keysyms_per_keycode as int, j)),
{
    let mut m = KeysymMap::empty();
    if keysyms_per_keycode == 0 {
        return m;
    }
    let per = keysyms_per_keycode;
    let n = keysyms.len();
    for j in 0..n
        invariant
            0 < per,
            n == keysyms@.len(),
            forall|sym: u32|
                #[trigger] m.spec_contains(sym) <==> (sym != 0 && keysyms@.take(j as int).contains(
                    sym,
                )),
            forall|sym: u32, jj: int|
                sym != 0 && jj < j && #[trigger] spec_first_occurrence(keysyms@, sym, jj)
                    ==> m.spec_lookup(sym) == Some(spec_chunk_keycode(min_keycode, per as int, jj)),
    {
        let ghost m_before = m;
        let sym = keysyms[j];
        if sym != 0 {
            let idx = j / per;
            let code = ((min_keycode as usize + idx % 256) % 256) as u8;
            proof {
                assert(code == spec_chunk_keycode(min_keycode, per as int, j as int));
            }
            m.insert_first(sym, code);
            proof {
                if m_before.spec_lookup(sym) is None {
                    assert(!m_before.spec_contains(sym));
                    assert(!keysyms@.take(j as int).contains(sym));
                    assert forall|k: int| 0 <= k < j implies keysyms@[k] != sym by {
                        if keysyms@[k] == sym {
                            assert(keysyms@.take(j as int)[k] == sym);
                            assert(keysyms@.take(j as int).contains(sym));
                        }
                    }
                    assert(spec_first_occurrence(keysyms@, sym, j as int));
                }
            }
        }
        proof {
            assert forall|s2: u32, jj: int|
                s2 != 0 && jj < j + 1 && #[trigger] spec_first_occurrence(keysyms@, s2, jj)
                    implies m.spec_lookup(s2) == Some(
                    spec_chunk_keycode(min_keycode, per as int, jj),
                ) by {
                if jj < j {
                    assert(m_before.spec_lookup(s2) == Some(
                        spec_chunk_keycode(min_keycode, per as int, jj),
                    ));
                    if sym != 0 && s2 == sym {
                        assert(m_before.spec_contains(sym));
                    } else {
                        assert(m.spec_lookup(s2) == m_before.spec_lookup(s2));
                    }
                } else {
                    assert(keysyms@[j as int] == s2);
                    assert(s2 == sym);
                    assert(!keysyms@.take(j as int).contains(sym)) by {
                        if keysyms@.take(j as int).contains(sym) {
                            let k = choose|k: int|
                                0 <= k < keysyms@.take(j as int).len() && #[trigger] keysyms@.take(
                                    j as int,
                                )[k] == sym;
                            assert(keysyms@[k] == sym);
                        }
                    }
                    assert(!m_before.spec_contains(sym));
                }
            }
        }
        proof {
            let prefix = keysyms@.take(j as int);
            let prefix1 = keysyms@.take(j + 1);
            assert forall|s2: u32| #[trigger] m.spec_contains(s2) implies (s2 != 0
                && prefix1.contains(s2)) by {
                if m_before.spec_contains(s2) {
                    let k = choose|k: int| 0 <= k < prefix.len() && #[trigger] prefix[k] == s2;
                    assert(prefix1[k] == s2);
                } else {
                    assert(s2 == sym && sym != 0);
                    assert(prefix1[j as int] == s2);
                }
            }
            assert forall|s2: u32| s2 != 0 && prefix1.contains(s2)
                implies #[trigger] m.spec_contains(s2) by {
                let k = choose|k: int| 0 <= k < prefix1.len() && #[trigger] prefix1[k] == s2;
                if k < j {
                    assert(prefix[k] == s2);
                    assert(prefix.contains(s2));
                    assert(m_before.spec_contains(s2));
                } else {
                    assert(s2 == sym);
                }
            }
        }
    }
    proof {
        assert(keysyms@.take(n as int) =~= keysyms@);
    }
    m
}

/// The keycodes a generic combo resolves to: each name taken through the
/// static table and the keysym map, in listed order;
/// unresolvable names are skipped and the remaining keys still execute.
pub open spec fn spec_x11_resolved(m: KeysymMap, names: Seq<String>) -> Seq<u8>
    decreases names.len(),
{
    if names.len() == 0 {
        Seq::empty()
    } else {
        let rest = spec_x11_resolved(m, names.drop_last());
        match spec_key_name_keysym(names.last()@) {
            Some(sym) => match m.spec_lookup(sym) {
                Some(code) => rest.push(code),
                None => rest,
            },
            None => rest,
        }
    }
}

/// The two-tier fallback for the special-cased single-key back/forward
/// combos: the session's dedicated key if the map resolves it, else the
/// Alt+arrow chord, which is injected only when every key of it resolves.
pub open spec fn spec_back_forward_fallback(m: KeysymMap, dedicated: u32, arrow: u32) -> Seq<u8> {
    match m.spec_lookup(dedicated) {
        Some(c) => seq![c],
        None => match (m.spec_lookup(XK_ALT_L), m.spec_lookup(arrow)) {
            (Some(alt), Some(arr)) => seq![alt, arr],
            _ => Seq::empty(),
        },
    }
}

/// The keycode sequence a key-combo action injects on the X11 backend:
/// `KEY_BACK` and `KEY_FORWARD` alone go through the dedicated-key fallback,
/// every other combo resolves name by name.
pub open spec fn spec_x11_combo_keycodes(m: KeysymMap, keys: Seq<String>) -> Seq<u8> {
    if keys.len() == 1 && keys[0]@ == "KEY_BACK"@ {
        spec_back_forward_fallback(m, XF86_BACK, XK_LEFT)
    } else if keys.len() == 1 && keys[0]@ == "KEY_FORWARD"@ {
        spec_back_forward_fallback(m, XF86_FORWARD, XK_RIGHT)
    } else {
        spec_x11_resolved(m, keys)
    }
}

/// Resolves the dedicated key, else the Alt+arrow chord, else nothing.
fn back_forward_fallback(m: &KeysymMap, dedicated: u32, arrow: u32) -> (codes: Vec<u8>)
    ensures
        codes@ == spec_back_forward_fallback(*m, dedicated, arrow),
{
    let mut codes: Vec<u8> = Vec::new();
    match m.lookup(dedicated) {
        Some(c) => {
            codes.push(c);
            proof {
                assert(codes@ =~= spec_back_forward_fallback(*m, dedicated, arrow));
            }
        },
        None => {
            match (m.lookup(XK_ALT_L), m.lookup(arrow)) {
                (Some(alt), Some(arr)) => {
                    codes.push(alt);
                    codes.push(arr);
                    proof {
                        assert(codes@ =~= spec_back_forward_fallback(*m, dedicated, arrow));
                    }
                },
                _ => {
                    proof {
                        assert(codes@ =~= spec_back_forward_fallback(*m, dedicated, arrow));
                    }
                },
            }
        },
    }
    codes
}

/// Resolves a key-combo action to the keycodes it injects on the X11
/// backend.
pub fn x11_key_combo_keycodes(m: &KeysymMap, keys: &Vec<String>) -> (codes: Vec<u8>)
    ensures
        codes@ == spec_x11_combo_keycodes(*m, keys@),
{
    if keys.len() == 1 && str_eq(keys[0].as_str(), "KEY_BACK") {
        return back_forward_fallback(m, XF86_BACK, XK_LEFT);
    }
    if keys.len() == 1 && str_eq(keys[0].as_str(), "KEY_FORWARD") {
        return back_forward_fallback(m, XF86_FORWARD, XK_RIGHT);
    }
    let mut codes: Vec<u8> = Vec::new();
    let n = keys.len();
    for i in 0..n
        invariant
            n == keys@.len(),
            codes@ == spec_x11_resolved(*m, keys@.take(i as int)),
    {
        proof {
            assert(keys@.take(i + 1).drop_last() =~= keys@.take(i as int));
            assert(keys@.take(i + 1).last() == keys@[i as int]);
        }
        match linux_key_name_to_x11_keysym(keys[i].as_str()) {
            Some(sym) => {
                match m.lookup(sym) {
                    Some(code) => codes.push(code),
                    None => (),
                }
            },
            None => (),
        }
    }
    proof {
        assert(keys@.take(n as int) =~= keys@);
    }
    codes
}

/// How an activation's action is carried out on the X11 backend. Every
/// failure mode is a logged no-op: nothing here ever stops the dispatch
/// loop.
pub enum X11ActionPlan {
    /// Spawn this program with these arguments, detached, without waiting.
    Spawn(String, Vec<String>),
    /// Empty argv: log a warning, spawn nothing.
    EmptyCommand,
    /// No keycode resolved: log, issue no injection request.
    NoInjection,
    /// Inject this chord through the synthetic-input extension, flushing
    /// after the press batch and after the release batch.
    Inject(Chord<u8>),
}

/// Plans one action for the X11 backend: the dispatch step between binding
/// lookup and execution.
pub fn plan_x11_action(m: &KeysymMap, action: &Action) -> (p: X11ActionPlan)
    ensures
        action matches Action::Command { argv } ==> {
            &&& argv@.len() == 0 <==> p is EmptyCommand
            &&& argv@.len() > 0 ==> (p matches X11ActionPlan::Spawn(prog, args) && prog@
                == argv@[0]@ && args@.len() == argv@.len() - 1 && forall|i: int|
                0 <= i < args@.len() ==> args@[i]@ == argv@[i + 1]@)
        },
        action matches Action::KeyCombo { keys } ==> {
            &&& spec_x11_combo_keycodes(*m, keys@).len() == 0 <==> p is NoInjection
            &&& spec_x11_combo_keycodes(*m, keys@).len() > 0 ==> (p matches X11ActionPlan::Inject(
                c,
            ) && c.press@ == spec_x11_combo_keycodes(*m, keys@) && c.release@
                == spec_x11_combo_keycodes(*m, keys@).reverse())
        },
{
    match action {
        Action::Command { argv } => {
            match command_plan(argv) {
                Some((prog, args)) => X11ActionPlan::Spawn(prog, args),
                None => X11ActionPlan::EmptyCommand,
            }
        },
        Action::KeyCombo { keys } => {
            let codes = x11_key_combo_keycodes(m, keys);
            match chord_plan(&codes) {
                Some(c) => X11ActionPlan::Inject(c),
                None => X11ActionPlan::NoInjection,
            }
        },
    }
}

} // verus!
