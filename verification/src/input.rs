//! Input state: key bindings, edge-detected key presses and the normalized
//! movement direction vector.
//!
//! Keys are plain numeric codes; whatever windowing layer sits outside the
//! library translates its own key events into these codes.  Each key's
//! state holds two bits: pressed, and just-changed since the last query.

use vstd::prelude::*;
use std::collections::HashMap;
use crate::geometry::Vec2;
use crate::geometry::FP_ONE;
use crate::geometry::DIAG_ONE;

verus! {

broadcast use vstd::std_specs::hash::group_hash_axioms;

/// Bit set while the key is held down.
pub const PRESSED_BIT: u32 = 2;

/// Bit set from the key event until the next query that scans the key.
pub const JUST_BIT: u32 = 1;

/// Default key codes of the test bindings.
pub const KEY_W: u32 = 87;

pub const KEY_S: u32 = 83;

pub const KEY_A: u32 = 65;

pub const KEY_D: u32 = 68;

pub const KEY_TAB: u32 = 9;

/// Game actions keys can be bound to.
#[derive(Clone, Copy, Debug, PartialEq, Eq, Structural)]
pub enum Action {
    MoveForward,
    MoveBackward,
    StrafeLeft,
    StrafeRight,
    ToggleMinimap,
}

pub struct MouseState {
    pub relative_x: i64,
    pub left_pressed: bool,
    pub right_pressed: bool,
}

pub struct InputState {
    pub forward_keys: Vec<u32>,
    pub backward_keys: Vec<u32>,
    pub strafe_left_keys: Vec<u32>,
    pub strafe_right_keys: Vec<u32>,
    pub toggle_minimap_keys: Vec<u32>,
    pub key_state: HashMap<u32, u32>,
    pub mouse_state: MouseState,
}

/// The pressed bit of a key-state word.
pub open spec fn pressed_flag(v: u32) -> bool {
    v & PRESSED_BIT != 0
}

/// The just-changed bit of a key-state word.
pub open spec fn just_flag(v: u32) -> bool {
    v & JUST_BIT != 0
}

/// Key codes bound to an action.
pub open spec fn binding_of(s: InputState, a: Action) -> Seq<u32> {
    match a {
        Action::MoveForward => s.forward_keys@,
        Action::MoveBackward => s.backward_keys@,
        Action::StrafeLeft => s.strafe_left_keys@,
        Action::StrafeRight => s.strafe_right_keys@,
        Action::ToggleMinimap => s.toggle_minimap_keys@,
    }
}

/// `k` is recorded as held down in key-state map `st`.
pub open spec fn key_pressed_in(st: Map<u32, u32>, k: u32) -> bool {
    st.contains_key(k) && pressed_flag(st[k])
}

/// A query walks the bound keys in order, clearing each visited key's
/// just-changed bit, and stops at the first key that satisfies it (pressed,
/// or pressed and just-changed when `just` is set).  This is whether it
/// finds one.
pub open spec fn scan_found(keys: Seq<u32>, st: Map<u32, u32>, just: bool) -> bool
    decreases keys.len(),
{
    if keys.len() == 0 {
        false
    } else {
        let k = keys[0];
        if st.contains_key(k) {
            if pressed_flag(st[k]) && (!just || just_flag(st[k])) {
                true
            } else {
                scan_found(keys.skip(1), st.insert(k, st[k] & PRESSED_BIT), just)
            }
        } else {
            scan_found(keys.skip(1), st, just)
        }
    }
}

/// The key-state map after such a query: just-changed bits cleared up to
/// and including the key that satisfied it.
pub open spec fn scan_state(keys: Seq<u32>, st: Map<u32, u32>, just: bool) -> Map<u32, u32>
    decreases keys.len(),
{
    if keys.len() == 0 {
        st
    } else {
        let k = keys[0];
        if st.contains_key(k) {
            let st2 = st.insert(k, st[k] & PRESSED_BIT);
            if pressed_flag(st[k]) && (!just || just_flag(st[k])) {
                st2
            } else {
                scan_state(keys.skip(1), st2, just)
            }
        } else {
            scan_state(keys.skip(1), st, just)
        }
    }
}

/// Scanning clears only just-changed bits: which keys exist and which are
/// pressed never changes.
pub proof fn lemma_scan_preserves_pressed(keys: Seq<u32>, st: Map<u32, u32>, just: bool)
    ensures
        forall|k: u32| #[trigger]
            key_pressed_in(scan_state(keys, st, just), k) == key_pressed_in(st, k),
    decreases keys.len(),
{
    assert forall|v: u32| ((v & PRESSED_BIT) & PRESSED_BIT) == v & PRESSED_BIT by {
        assert(((v & 2) & 2) == v & 2) by (bit_vector);
    }
    if keys.len() == 0 {
        assert(scan_state(keys, st, just) == st);
    } else {
        let k = keys[0];
        if st.contains_key(k) {
            let st2 = st.insert(k, st[k] & PRESSED_BIT);
            assert forall|k2: u32| #[trigger]
                key_pressed_in(st2, k2) == key_pressed_in(st, k2) by {
                let v = st[k];
                assert(((v & 2) & 2) == v & 2) by (bit_vector);
            }
            if pressed_flag(st[k]) && (!just || just_flag(st[k])) {
                assert(scan_state(keys, st, just) == st2);
            } else {
                lemma_scan_preserves_pressed(keys.skip(1), st2, just);
                assert(scan_state(keys, st, just) == scan_state(keys.skip(1), st2, just));
                assert forall|k2: u32| #[trigger]
                    key_pressed_in(scan_state(keys, st, just), k2) == key_pressed_in(st, k2) by {
                    assert(key_pressed_in(scan_state(keys.skip(1), st2, just), k2)
                        == key_pressed_in(st2, k2));
                }
            }
        } else {
            lemma_scan_preserves_pressed(keys.skip(1), st, just);
            assert(scan_state(keys, st, just) == scan_state(keys.skip(1), st, just));
        }
    }
}

/// A plain (non-edge) query finds a key exactly when some bound key is
/// recorded as pressed.
pub proof fn lemma_scan_found_iff_pressed(keys: Seq<u32>, st: Map<u32, u32>)
    ensures
        scan_found(keys, st, false) <==> exists|j: int|
            0 <= j < keys.len() && key_pressed_in(st, #[trigger] keys[j]),
    decreases keys.len(),
{
    if keys.len() > 0 {
        let k = keys[0];
        if st.contains_key(k) {
            let st2 = st.insert(k, st[k] & PRESSED_BIT);
            if pressed_flag(st[k]) {
                assert(key_pressed_in(st, keys[0]));
            } else {
                lemma_scan_found_iff_pressed(keys.skip(1), st2);
                assert forall|k2: u32| #[trigger]
                    key_pressed_in(st2, k2) == key_pressed_in(st, k2) by {
                    let v = st[k];
                    assert(((v & 2) & 2) == v & 2) by (bit_vector);
                }
                assert forall|j: int| 0 <= j < keys.len() && key_pressed_in(st, keys[j])
                    implies scan_found(keys, st, false) by {
                    assert(keys.skip(1)[j - 1] == keys[j] || j == 0);
                }
                if scan_found(keys, st, false) {
                    let j = choose|j: int|
                        0 <= j < keys.skip(1).len() && key_pressed_in(st2, keys.skip(1)[j]);
                    assert(keys[j + 1] == keys.skip(1)[j]);
                }
            }
        } else {
            lemma_scan_found_iff_pressed(keys.skip(1), st);
            assert forall|j: int| 0 <= j < keys.len() && key_pressed_in(st, keys[j])
                implies scan_found(keys, st, false) by {
                assert(keys.skip(1)[j - 1] == keys[j] || j == 0);
            }
            if scan_found(keys, st, false) {
                let j = choose|j: int|
                    0 <= j < keys.skip(1).len() && key_pressed_in(st, keys.skip(1)[j]);
                assert(keys[j + 1] == keys.skip(1)[j]);
            }
        }
    }
}

/// The normalized movement vector for the four direction flags: axis
/// contributions cancel, lone axes give unit vectors, diagonals give the
/// fixed-point unit diagonal.
pub open spec fn dir_vector_spec(f: bool, b: bool, l: bool, r: bool) -> Vec2 {
    let y: int = (if f {
        1int
    } else {
        0int
    }) + (if b {
        -1int
    } else {
        0int
    });
    let x: int = (if l {
        -1int
    } else {
        0int
    }) + (if r {
        1int
    } else {
        0int
    });
    if x == 0 && y == 0 {
        Vec2 { x: 0i64, y: 0i64 }
    } else if x == 0 {
        Vec2 { x: 0i64, y: (y * FP_ONE) as i64 }
    } else if y == 0 {
        Vec2 { x: (x * FP_ONE) as i64, y: 0i64 }
    } else {
        Vec2 { x: (x * DIAG_ONE) as i64, y: (y * DIAG_ONE) as i64 }
    }
}

fn copy_keys(v: &Vec<u32>) -> (r: Vec<u32>)
    ensures
        r@ == v@,
{
    let mut r: Vec<u32> = Vec::new();
    let mut i: usize = 0;
    while i < v.len()
        invariant
            i <= v@.len(),
            r@ == v@.take(i as int),
        decreases v@.len() - i,
    {
        r.push(v[i]);
        proof {
            assert(v@.take(i as int).push(v@[i as int]) =~= v@.take(i + 1 as int));
        }
        i = i + 1;
    }
    proof {
        assert(v@.take(v@.len() as int) =~= v@);
    }
    r
}

fn vec_contains(v: &Vec<u32>, k: u32) -> (r: bool)
    ensures
        r == v@.contains(k),
{
    let mut i: usize = 0;
    while i < v.len()
        invariant
            i <= v@.len(),
            forall|j: int| 0 <= j < i as int ==> v@[j] != k,
        decreases v@.len() - i,
    {
        if v[i] == k {
            return true;
        }
        i = i + 1;
    }
    false
}

impl InputState {
    fn binding_vec(&self, action: Action) -> (r: &Vec<u32>)
        ensures
            r@ == binding_of(*self, action),
    {
        match action {
            Action::MoveForward => &self.forward_keys,
            Action::MoveBackward => &self.backward_keys,
            Action::StrafeLeft => &self.strafe_left_keys,
            Action::StrafeRight => &self.strafe_right_keys,
            Action::ToggleMinimap => &self.toggle_minimap_keys,
        }
    }

    /// Bind `key` to `action` (a key already bound to it stays bound once).
    pub fn bind_action(&mut self, action: Action, key: u32)
        ensures
            binding_of(*final(self), action) == (if binding_of(*old(self), action).contains(key) {
                binding_of(*old(self), action)
            } else {
                binding_of(*old(self), action).push(key)
            }),
            forall|a: Action| a != action ==> binding_of(*final(self), a) == binding_of(
                *old(self),
                a,
            ),
            final(self).key_state@ == old(self).key_state@,
            final(self).mouse_state == old(self).mouse_state,
    {
        let present = vec_contains(self.binding_vec(action), key);
        if !present {
            match action {
                Action::MoveForward => self.forward_keys.push(key),
                Action::MoveBackward => self.backward_keys.push(key),
                Action::StrafeLeft => self.strafe_left_keys.push(key),
                Action::StrafeRight => self.strafe_right_keys.push(key),
                Action::ToggleMinimap => self.toggle_minimap_keys.push(key),
            }
        }
    }

    /// Record a key event: the pressed bit follows the event and the
    /// just-changed bit is set.
    pub fn set_key_state(&mut self, key: u32, pressed: bool)
        ensures
            final(self).key_state@ == old(self).key_state@.insert(
                key,
                if pressed {
                    JUST_BIT | PRESSED_BIT
                } else {
                    JUST_BIT
                },
            ),
            forall|a: Action| binding_of(*final(self), a) == binding_of(*old(self), a),
            final(self).mouse_state == old(self).mouse_state,
    {
        let pressed_flag: u32 = if pressed {
            PRESSED_BIT
        } else {
            0
        };
        self.key_state.insert(key, JUST_BIT | pressed_flag);
        proof {
            assert(JUST_BIT | 0 == JUST_BIT) by (bit_vector);
        }
    }

    /// Whether some key bound to `action` is held down; clears the
    /// just-changed bits of the keys visited by the scan.
    pub fn is_action_pressed(&mut self, action: Action) -> (r: bool)
        ensures
            r == scan_found(binding_of(*old(self), action), old(self).key_state@, false),
            final(self).key_state@ == scan_state(
                binding_of(*old(self), action),
                old(self).key_state@,
                false,
            ),
            forall|a: Action| binding_of(*final(self), a) == binding_of(*old(self), a),
            final(self).mouse_state == old(self).mouse_state,
    {
        self.scan_action(action, false)
    }

    /// Whether some key bound to `action` was just pressed (pressed with
    /// its just-changed bit still set); clears the visited just-changed
    /// bits, so the next query reports false until the key is released and
    /// pressed again.
    pub fn is_action_just_pressed(&mut self, action: Action) -> (r: bool)
        ensures
            r == scan_found(binding_of(*old(self), action), old(self).key_state@, true),
            final(self).key_state@ == scan_state(
                binding_of(*old(self), action),
                old(self).key_state@,
                true,
            ),
            forall|a: Action| binding_of(*final(self), a) == binding_of(*old(self), a),
            final(self).mouse_state == old(self).mouse_state,
    {
        self.scan_action(action, true)
    }

    fn scan_action(&mut self, action: Action, just: bool) -> (r: bool)
        ensures
            r == scan_found(binding_of(*old(self), action), old(self).key_state@, just),
            final(self).key_state@ == scan_state(
                binding_of(*old(self), action),
                old(self).key_state@,
                just,
            ),
            forall|a: Action| binding_of(*final(self), a) == binding_of(*old(self), a),
            final(self).mouse_state == old(self).mouse_state,
    {
        let keys = copy_keys(self.binding_vec(action));
        let ghost keys0 = keys@;
        let ghost st0 = self.key_state@;
        proof {
            assert(keys0.skip(0) =~= keys0);
        }
        let mut i: usize = 0;
        while i < keys.len()
            invariant
                keys@ == keys0,
                keys0 == binding_of(*old(self), action),
                st0 == old(self).key_state@,
                i <= keys0.len(),
                scan_found(keys0, st0, just) == scan_found(
                    keys0.skip(i as int),
                    self.key_state@,
                    just,
                ),
                scan_state(keys0, st0, just) == scan_state(
                    keys0.skip(i as int),
                    self.key_state@,
                    just,
                ),
                forall|a: Action| binding_of(*self, a) == binding_of(*old(self), a),
                self.mouse_state == old(self).mouse_state,
                self.forward_keys == old(self).forward_keys,
                self.backward_keys == old(self).backward_keys,
                self.strafe_left_keys == old(self).strafe_left_keys,
                self.strafe_right_keys == old(self).strafe_right_keys,
                self.toggle_minimap_keys == old(self).toggle_minimap_keys,
            decreases keys0.len() - i,
        {
            let k = keys[i];
            let ghost st_before = self.key_state@;
            let state_opt = match self.key_state.get(&k) {
                Some(state) => Some(*state),
                None => None,
            };
            match state_opt {
                Some(state) => {
                    let pressed: u32 = state & PRESSED_BIT;
                    let just_b: u32 = state & JUST_BIT;
                    self.key_state.insert(k, pressed);
                    if pressed != 0 && (!just || just_b != 0) {
                        proof {
                            assert(pressed_flag(state) && (!just || just_flag(state)));
                            assert(keys0.skip(i as int)[0] == keys0[i as int]);
                            assert(scan_found(keys0.skip(i as int), st_before, just));
                            assert(scan_state(keys0.skip(i as int), st_before, just)
                                == st_before.insert(k, state & PRESSED_BIT));
                        }
                        return true;
                    }
                    proof {
                        assert(!(pressed_flag(state) && (!just || just_flag(state))));
                        assert(keys0.skip(i as int).skip(1) =~= keys0.skip(i + 1 as int));
                    }
                },
                None => {
                    proof {
                        assert(keys0.skip(i as int).skip(1) =~= keys0.skip(i + 1 as int));
                    }
                },
            }
            i = i + 1;
        }
        false
    }

    /// The normalized movement direction from the four movement actions;
    /// opposite actions cancel and diagonals are unit length.  Scans (and
    /// so edge-clears) the four movement bindings in order.
    pub fn get_dir_input_vector(&mut self) -> (r: Vec2)
        ensures
            final(self).key_state@ == scan_state(
                binding_of(*old(self), Action::StrafeRight),
                scan_state(
                    binding_of(*old(self), Action::StrafeLeft),
                    scan_state(
                        binding_of(*old(self), Action::MoveBackward),
                        scan_state(
                            binding_of(*old(self), Action::MoveForward),
                            old(self).key_state@,
                            false,
                        ),
                        false,
                    ),
                    false,
                ),
                false,
            ),
            r == dir_vector_spec(
                exists|j: int|
                    0 <= j < binding_of(*old(self), Action::MoveForward).len() && key_pressed_in(
                        old(self).key_state@,
                        #[trigger] binding_of(*old(self), Action::MoveForward)[j],
                    ),
                exists|j: int|
                    0 <= j < binding_of(*old(self), Action::MoveBackward).len() && key_pressed_in(
                        old(self).key_state@,
                        #[trigger] binding_of(*old(self), Action::MoveBackward)[j],
                    ),
                exists|j: int|
                    0 <= j < binding_of(*old(self), Action::StrafeLeft).len() && key_pressed_in(
                        old(self).key_state@,
                        #[trigger] binding_of(*old(self), Action::StrafeLeft)[j],
                    ),
                exists|j: int|
                    0 <= j < binding_of(*old(self), Action::StrafeRight).len() && key_pressed_in(
                        old(self).key_state@,
                        #[trigger] binding_of(*old(self), Action::StrafeRight)[j],
                    ),
            ),
            forall|a: Action| binding_of(*final(self), a) == binding_of(*old(self), a),
            final(self).mouse_state == old(self).mouse_state,
    {
        let ghost st0 = self.key_state@;
        let f = self.is_action_pressed(Action::MoveForward);
        let ghost st1 = self.key_state@;
        let b = self.is_action_pressed(Action::MoveBackward);
        let ghost st2 = self.key_state@;
        let l = self.is_action_pressed(Action::StrafeLeft);
        let ghost st3 = self.key_state@;
        let r = self.is_action_pressed(Action::StrafeRight);
        proof {
            let bw = binding_of(*old(self), Action::MoveBackward);
            let sl = binding_of(*old(self), Action::StrafeLeft);
            let sr = binding_of(*old(self), Action::StrafeRight);
            lemma_scan_preserves_pressed(binding_of(*old(self), Action::MoveForward), st0, false);
            lemma_scan_preserves_pressed(bw, st1, false);
            lemma_scan_preserves_pressed(sl, st2, false);
            lemma_scan_found_iff_pressed(bw, st1);
            lemma_scan_found_iff_pressed(sl, st2);
            lemma_scan_found_iff_pressed(sr, st3);
            lemma_scan_found_iff_pressed(binding_of(*old(self), Action::MoveForward), st0);
            lemma_scan_found_iff_pressed(bw, st0);
            lemma_scan_found_iff_pressed(sl, st0);
            lemma_scan_found_iff_pressed(sr, st0);
        }
        let y: i64 = (if f {
            1
        } else {
            0
        }) + (if b {
            -1
        } else {
            0
        });
        let x: i64 = (if l {
            -1
        } else {
            0
        }) + (if r {
            1
        } else {
            0
        });
        if x == 0 && y == 0 {
            Vec2 { x: 0, y: 0 }
        } else if x == 0 {
            Vec2 { x: 0, y: y * FP_ONE }
        } else if y == 0 {
            Vec2 { x: x * FP_ONE, y: 0 }
        } else {
            Vec2 { x: x * DIAG_ONE, y: y * DIAG_ONE }
        }
    }

    /// Accumulate relative mouse motion along x (fixed-point, wrapping).
    pub fn add_mouse_x_relative(&mut self, rel: i64)
        ensures
            final(self).mouse_state.relative_x == vstd::wrapping::i64_specs::wrapping_add(
                old(self).mouse_state.relative_x,
                rel,
            ),
            final(self).mouse_state.left_pressed == old(self).mouse_state.left_pressed,
            final(self).mouse_state.right_pressed == old(self).mouse_state.right_pressed,
            final(self).key_state@ == old(self).key_state@,
            forall|a: Action| binding_of(*final(self), a) == binding_of(*old(self), a),
    {
        self.mouse_state.relative_x = self.mouse_state.relative_x.wrapping_add(rel);
    }

    /// Hand out the accumulated relative mouse motion and reset it.
    pub fn take_mouse_x_relative(&mut self) -> (r: i64)
        ensures
            r == old(self).mouse_state.relative_x,
            final(self).mouse_state.relative_x == 0,
            final(self).mouse_state.left_pressed == old(self).mouse_state.left_pressed,
            final(self).mouse_state.right_pressed == old(self).mouse_state.right_pressed,
            final(self).key_state@ == old(self).key_state@,
            forall|a: Action| binding_of(*final(self), a) == binding_of(*old(self), a),
    {
        let rel = self.mouse_state.relative_x;
        self.mouse_state.relative_x = 0;
        rel
    }

    pub fn set_mouse_left_pressed(&mut self, pressed: bool)
        ensures
            final(self).mouse_state.left_pressed == pressed,
            final(self).mouse_state.right_pressed == old(self).mouse_state.right_pressed,
            final(self).mouse_state.relative_x == old(self).mouse_state.relative_x,
            final(self).key_state@ == old(self).key_state@,
            forall|a: Action| binding_of(*final(self), a) == binding_of(*old(self), a),
    {
        self.mouse_state.left_pressed = pressed;
    }

    pub fn set_mouse_right_pressed(&mut self, pressed: bool)
        ensures
            final(self).mouse_state.right_pressed == pressed,
            final(self).mouse_state.left_pressed == old(self).mouse_state.left_pressed,
            final(self).mouse_state.relative_x == old(self).mouse_state.relative_x,
            final(self).key_state@ == old(self).key_state@,
            forall|a: Action| binding_of(*final(self), a) == binding_of(*old(self), a),
    {
        self.mouse_state.right_pressed = pressed;
    }
}

impl Default for InputState {
    /// The test bindings: W/S/A/D movement and Tab for the minimap toggle,
    /// no key events recorded yet.
    fn default() -> (r: InputState)
        ensures
            binding_of(r, Action::MoveForward) == seq![KEY_W],
            binding_of(r, Action::MoveBackward) == seq![KEY_S],
            binding_of(r, Action::StrafeLeft) == seq![KEY_A],
            binding_of(r, Action::StrafeRight) == seq![KEY_D],
            binding_of(r, Action::ToggleMinimap) == seq![KEY_TAB],
            r.key_state@ == Map::<u32, u32>::empty(),
            r.mouse_state.relative_x == 0,
            r.mouse_state.left_pressed == false,
            r.mouse_state.right_pressed == false,
    {
        let mut input_state = InputState {
            forward_keys: Vec::new(),
            backward_keys: Vec::new(),
            strafe_left_keys: Vec::new(),
            strafe_right_keys: Vec::new(),
            toggle_minimap_keys: Vec::new(),
            key_state: HashMap::new(),
            mouse_state: MouseState { relative_x: 0, left_pressed: false, right_pressed: false },
        };
        input_state.bind_action(Action::MoveForward, KEY_W);
        input_state.bind_action(Action::MoveBackward, KEY_S);
        input_state.bind_action(Action::StrafeLeft, KEY_A);
        input_state.bind_action(Action::StrafeRight, KEY_D);
        input_state.bind_action(Action::ToggleMinimap, KEY_TAB);
        proof {
            assert(Seq::<u32>::empty().push(KEY_W) =~= seq![KEY_W]);
            assert(Seq::<u32>::empty().push(KEY_S) =~= seq![KEY_S]);
            assert(Seq::<u32>::empty().push(KEY_A) =~= seq![KEY_A]);
            assert(Seq::<u32>::empty().push(KEY_D) =~= seq![KEY_D]);
            assert(Seq::<u32>::empty().push(KEY_TAB) =~= seq![KEY_TAB]);
        }
        input_state
    }
}

/// A simpler input holder with one key per movement action and plain
/// pressed flags, no edge detection.
pub struct UserInput {
    pub move_forward: u32,
    pub move_backward: u32,
    pub strafe_left: u32,
    pub strafe_right: u32,
    pub key_pressed_states: HashMap<u32, bool>,
    pub mouse_position: Vec2,
    pub mouse_relative: Vec2,
    pub mouse_left_pressed: bool,
    pub mouse_right_pressed: bool,
}

/// Key `k` is recorded as held down.
pub open spec fn user_key_pressed(s: UserInput, k: u32) -> bool {
    s.key_pressed_states@.contains_key(k) && s.key_pressed_states@[k]
}

impl UserInput {
    fn is_key_pressed(&self, keycode: u32) -> (r: bool)
        ensures
            r == user_key_pressed(*self, keycode),
    {
        match self.key_pressed_states.get(&keycode) {
            Some(b) => *b,
            None => false,
        }
    }

    /// Record a key event.
    pub fn keyboard_input(&mut self, keycode: u32, pressed: bool)
        ensures
            *final(self) == (UserInput {
                key_pressed_states: final(self).key_pressed_states,
                ..*old(self)
            }),
            final(self).key_pressed_states@ == old(self).key_pressed_states@.insert(
                keycode,
                pressed,
            ),
    {
        self.key_pressed_states.insert(keycode, pressed);
    }

    /// Record the mouse position and its motion since the last event.
    pub fn mouse_move_input(&mut self, position: Vec2, relative: Vec2)
        ensures
            *final(self) == (UserInput { mouse_position: position, mouse_relative: relative, ..*old(self) }),
    {
        self.mouse_position = position;
        self.mouse_relative = relative;
    }

    /// Hand out the pending relative mouse motion along x and reset it.
    pub fn take_mouse_relative_x(&mut self) -> (r: i64)
        ensures
            r == old(self).mouse_relative.x,
            *final(self) == (UserInput {
                mouse_relative: Vec2 { x: 0i64, y: 0i64 },
                ..*old(self)
            }),
    {
        let retval = self.mouse_relative.x;
        self.mouse_relative = Vec2 { x: 0, y: 0 };
        retval
    }

    /// The normalized movement direction from the four bound keys.
    pub fn get_dir_input_vector(&self) -> (r: Vec2)
        ensures
            r == dir_vector_spec(
                user_key_pressed(*self, self.move_forward),
                user_key_pressed(*self, self.move_backward),
                user_key_pressed(*self, self.strafe_left),
                user_key_pressed(*self, self.strafe_right),
            ),
    {
        let f = self.is_key_pressed(self.move_forward);
        let b = self.is_key_pressed(self.move_backward);
        let l = self.is_key_pressed(self.strafe_left);
        let r = self.is_key_pressed(self.strafe_right);
        let y: i64 = (if f {
            1
        } else {
            0
        }) + (if b {
            -1
        } else {
            0
        });
        let x: i64 = (if l {
            -1
        } else {
            0
        }) + (if r {
            1
        } else {
            0
        });
        if x == 0 && y == 0 {
            Vec2 { x: 0, y: 0 }
        } else if x == 0 {
            Vec2 { x: 0, y: y * FP_ONE }
        } else if y == 0 {
            Vec2 { x: x * FP_ONE, y: 0 }
        } else {
            Vec2 { x: x * DIAG_ONE, y: y * DIAG_ONE }
        }
    }
}

/// A `UserInput` with the W/S/A/D movement keys and all state cleared.
pub fn create_test_user_input() -> (r: UserInput)
    ensures
        r.move_forward == KEY_W,
        r.move_backward == KEY_S,
        r.strafe_left == KEY_A,
        r.strafe_right == KEY_D,
        r.key_pressed_states@ == Map::<u32, bool>::empty().insert(KEY_W, false).insert(
            KEY_S,
            false,
        ).insert(KEY_A, false).insert(KEY_D, false),
        r.mouse_position == (Vec2 { x: 0i64, y: 0i64 }),
        r.mouse_relative == (Vec2 { x: 0i64, y: 0i64 }),
        r.mouse_left_pressed == false,
        r.mouse_right_pressed == false,
{
    let mut key_pressed_states: HashMap<u32, bool> = HashMap::new();
    key_pressed_states.insert(KEY_W, false);
    key_pressed_states.insert(KEY_S, false);
    key_pressed_states.insert(KEY_A, false);
    key_pressed_states.insert(KEY_D, false);
    UserInput {
        move_forward: KEY_W,
        move_backward: KEY_S,
        strafe_left: KEY_A,
        strafe_right: KEY_D,
        key_pressed_states,
        mouse_position: Vec2 { x: 0, y: 0 },
        mouse_relative: Vec2 { x: 0, y: 0 },
        mouse_left_pressed: false,
        mouse_right_pressed: false,
    }
}

} // verus!
