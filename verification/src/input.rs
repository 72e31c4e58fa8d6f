//! Keyboard and mouse-button state, frame by frame.
//!
//! Keys are known by the index of their virtual key code.  The state keeps,
//! for every key and for the three main mouse buttons, whether it is held
//! now and whether it was held at the end of the previous frame.

use vstd::prelude::*;

verus! {

/// The state of the three main mouse buttons.
#[derive(Debug, Clone, Copy, PartialEq, Eq, Structural)]
pub struct MouseState {
    pub left: bool,
    pub right: bool,
    pub middle: bool,
}

/// A mouse button.
#[derive(Debug, Clone, Copy, PartialEq, Eq, Structural)]
pub enum MouseButton {
    Left,
    Right,
    Middle,
    Other(u16),
}

/// A change of a key's or a mouse button's state.
#[derive(Debug, Clone, Copy, PartialEq, Eq, Structural)]
pub enum InputEvent {
    /// The key with virtual key code `code` was pressed or released.
    Key { code: usize, pressed: bool },
    /// A mouse button was pressed or released.
    MouseButton { button: MouseButton, pressed: bool },
}

/// Whether `button` is held in `m`; the buttons beyond the three main ones
/// are never held.
pub open spec fn button_held(m: MouseState, button: MouseButton) -> bool {
    match button {
        MouseButton::Left => m.left,
        MouseButton::Right => m.right,
        MouseButton::Middle => m.middle,
        MouseButton::Other(_) => false,
    }
}

/// `m` with `button` set to `held` (no change for the other buttons).
pub open spec fn with_button(m: MouseState, button: MouseButton, held: bool) -> MouseState {
    match button {
        MouseButton::Left => MouseState { left: held, ..m },
        MouseButton::Right => MouseState { right: held, ..m },
        MouseButton::Middle => MouseState { middle: held, ..m },
        MouseButton::Other(_) => m,
    }
}

/// How the editor's gizmo changes the selected entity's transform.
#[derive(Debug, Clone, Copy, PartialEq, Eq, Structural)]
pub enum GizmoMode {
    Translate,
    Rotate,
    Scale,
}

/// The gizmo mode after a frame in which the translate (T), rotate (R) and
/// scale (Y) keys are held or not: scale wins over rotate, which wins over
/// translate; with none of them held the mode stays.
pub fn gizmo_mode_after(current: GizmoMode, translate_held: bool, rotate_held: bool, scale_held: bool) -> (m:
    GizmoMode)
    ensures
        scale_held ==> m == GizmoMode::Scale,
        !scale_held && rotate_held ==> m == GizmoMode::Rotate,
        !scale_held && !rotate_held && translate_held ==> m == GizmoMode::Translate,
        !scale_held && !rotate_held && !translate_held ==> m == current,
{
    let mut mode = current;
    if translate_held {
        mode = GizmoMode::Translate;
    }
    if rotate_held {
        mode = GizmoMode::Rotate;
    }
    if scale_held {
        mode = GizmoMode::Scale;
    }
    mode
}

/// Key and mouse-button state.
pub struct InputSystem {
    current_down: Vec<bool>,
    prev_down: Vec<bool>,
    mouse_down: MouseState,
    mouse_prev: MouseState,
}

impl InputSystem {
    /// Which keys are held now, by key code.
    pub closed spec fn down(&self) -> Seq<bool> {
        self.current_down@
    }

    /// Which keys were held at the end of the previous frame.
    pub closed spec fn prev(&self) -> Seq<bool> {
        self.prev_down@
    }

    /// The mouse buttons held now.
    pub closed spec fn mouse(&self) -> MouseState {
        self.mouse_down
    }

    /// The mouse buttons held at the end of the previous frame.
    pub closed spec fn mouse_before(&self) -> MouseState {
        self.mouse_prev
    }

    pub closed spec fn wf(&self) -> bool {
        self.current_down@.len() == self.prev_down@.len()
    }

    /// Key `k` is held now and was not at the end of the previous frame.
    pub open spec fn pressed_now(&self, k: int) -> bool {
        self.down()[k] && !self.prev()[k]
    }

    /// Key `k` is not held now and was at the end of the previous frame.
    pub open spec fn released_now(&self, k: int) -> bool {
        !self.down()[k] && self.prev()[k]
    }

    /// Number of key codes tracked.
    pub open spec fn key_count(&self) -> nat {
        self.down().len()
    }

    /// A state for `key_count` key codes, with nothing held.
    pub fn new(key_count: usize) -> (s: Self)
        ensures
            s.wf(),
            s.key_count() == key_count,
            s.down() == Seq::new(key_count as nat, |i: int| false),
            s.prev() == Seq::new(key_count as nat, |i: int| false),
            s.mouse() == (MouseState { left: false, right: false, middle: false }),
            s.mouse_before() == (MouseState { left: false, right: false, middle: false }),
    {
        let mut current_down: Vec<bool> = Vec::new();
        let mut prev_down: Vec<bool> = Vec::new();
        let mut i: usize = 0;
        while i < key_count
            invariant
                i <= key_count,
                current_down@ == Seq::new(i as nat, |j: int| false),
                prev_down@ == Seq::new(i as nat, |j: int| false),
            decreases key_count - i,
        {
            current_down.push(false);
            prev_down.push(false);
            i = i + 1;
            assert(current_down@ =~= Seq::new(i as nat, |j: int| false));
            assert(prev_down@ =~= Seq::new(i as nat, |j: int| false));
        }
        InputSystem {
            current_down,
            prev_down,
            mouse_down: MouseState { left: false, right: false, middle: false },
            mouse_prev: MouseState { left: false, right: false, middle: false },
        }
    }

    /// Starts a new frame: what is held now becomes what was held before.
    pub fn update(&mut self)
        requires
            old(self).wf(),
        ensures
            final(self).wf(),
            final(self).down() == old(self).down(),
            final(self).prev() == old(self).down(),
            final(self).mouse() == old(self).mouse(),
            final(self).mouse_before() == old(self).mouse(),
            forall|k: int|
                0 <= k < final(self).key_count() ==> !#[trigger] final(self).pressed_now(k)
                    && !final(self).released_now(k),
    {
        let mut i: usize = 0;
        while i < self.prev_down.len()
            invariant
                self.current_down@ == old(self).current_down@,
                self.prev_down@.len() == self.current_down@.len(),
                self.mouse_down == old(self).mouse_down,
                i <= self.prev_down@.len(),
                forall|j: int| 0 <= j < i ==> #[trigger] self.prev_down@[j] == self.current_down@[j],
            decreases self.prev_down@.len() - i,
        {
            let held = self.current_down[i];
            self.prev_down.set(i, held);
            i = i + 1;
        }
        assert(self.prev_down@ =~= self.current_down@);
        self.mouse_prev = self.mouse_down;
    }

    /// The flag of `btn` among the held mouse buttons, if it is one of the
    /// three main ones.
    fn match_mouse_button(&mut self, btn: MouseButton) -> (r: Option<&mut bool>)
        ensures
            r is Some <==> !(btn is Other),
            r matches Some(b) ==> *b == button_held(old(self).mouse_down, btn) && final(self).mouse_down
                == with_button(old(self).mouse_down, btn, *final(b)),
            r is None ==> *final(self) == *old(self),
            final(self).current_down == old(self).current_down,
            final(self).prev_down == old(self).prev_down,
            final(self).mouse_prev == old(self).mouse_prev,
    {
        match btn {
            MouseButton::Left => Some(&mut self.mouse_down.left),
            MouseButton::Right => Some(&mut self.mouse_down.right),
            MouseButton::Middle => Some(&mut self.mouse_down.middle),
            MouseButton::Other(_) => None,
        }
    }

    /// Records a key or mouse-button change.
    pub fn handle_events(&mut self, input_event: &InputEvent)
        requires
            old(self).wf(),
            input_event matches InputEvent::Key { code, .. } ==> code < old(self).key_count(),
        ensures
            final(self).wf(),
            final(self).prev() == old(self).prev(),
            final(self).mouse_before() == old(self).mouse_before(),
            match *input_event {
                InputEvent::Key { code, pressed } => {
                    &&& final(self).down() == old(self).down().update(code as int, pressed)
                    &&& final(self).mouse() == old(self).mouse()
                },
                InputEvent::MouseButton { button, pressed } => {
                    &&& final(self).down() == old(self).down()
                    &&& final(self).mouse() == with_button(old(self).mouse(), button, pressed)
                },
            },
    {
        match input_event {
            InputEvent::Key { code, pressed } => {
                self.current_down.set(*code, *pressed);
            },
            InputEvent::MouseButton { button, pressed } => {
                if let Some(button_ref) = self.match_mouse_button(*button) {
                    *button_ref = *pressed;
                }
            },
        }
    }

    /// Whether key `key` is held.
    pub fn is_down(&self, key: usize) -> (r: bool)
        requires
            key < self.key_count(),
        ensures
            r == self.down()[key as int],
    {
        self.current_down[key]
    }

    /// Whether key `key` is held now and was not at the end of the previous
    /// frame.
    pub fn just_pressed(&self, key: usize) -> (r: bool)
        requires
            self.wf(),
            key < self.key_count(),
        ensures
            r == self.pressed_now(key as int),
    {
        self.is_down(key) && !self.prev_down[key]
    }

    /// Whether key `key` is not held now and was at the end of the previous
    /// frame.
    pub fn just_released(&self, key: usize) -> (r: bool)
        requires
            self.wf(),
            key < self.key_count(),
        ensures
            r == self.released_now(key as int),
    {
        !self.is_down(key) && self.prev_down[key]
    }

    /// Whether mouse button `key` is held.
    pub fn is_mouse_down(&mut self, key: MouseButton) -> (r: bool)
        ensures
            r == button_held(old(self).mouse(), key),
            final(self).mouse() == old(self).mouse(),
            final(self).down() == old(self).down(),
            final(self).prev() == old(self).prev(),
            final(self).mouse_before() == old(self).mouse_before(),
            old(self).wf() ==> final(self).wf(),
    {
        if let Some(button_bool) = self.match_mouse_button(key) {
            *button_bool
        } else {
            false
        }
    }
}

/// Each of the three main mouse buttons has a state of its own, the field of
/// its name: setting one button gives it that state and leaves the other
/// buttons as they were.
pub proof fn law_mouse_buttons_independent(m: MouseState, b: MouseButton, other: MouseButton, held: bool)
    requires
        !(b is Other),
        b != other,
    ensures
        button_held(m, MouseButton::Left) == m.left,
        button_held(m, MouseButton::Right) == m.right,
        button_held(m, MouseButton::Middle) == m.middle,
        button_held(with_button(m, b, held), b) == held,
        button_held(with_button(m, b, held), other) == button_held(m, other),
{
}

impl InputSystem {
    /// No key is pressed and released in the same frame.
    pub proof fn law_press_release_exclusive(s: Self, k: int)
        ensures
            !(s.pressed_now(k) && s.released_now(k)),
    {
    }

    /// A mouse-button event changes what `is_mouse_down` reports for that
    /// button only: a main button is then held exactly when the event says
    /// pressed, and every other button is reported as before.
    pub proof fn law_mouse_event_touches_one_button(
        pre: Self,
        post: Self,
        button: MouseButton,
        pressed: bool,
        other: MouseButton,
    )
        requires
            post.mouse() == with_button(pre.mouse(), button, pressed),
            other != button,
        ensures
            !(button is Other) ==> button_held(post.mouse(), button) == pressed,
            button_held(post.mouse(), other) == button_held(pre.mouse(), other),
    {
    }

    /// Pressing a key that was not held at the end of the previous frame
    /// makes it pressed in this frame; releasing a key that was held makes
    /// it released.
    pub proof fn law_key_event_edges(pre: Self, post: Self, code: int, pressed: bool)
        requires
            0 <= code < pre.key_count(),
            post.prev() == pre.prev(),
            post.down() == pre.down().update(code, pressed),
        ensures
            pressed && !pre.prev()[code] ==> post.pressed_now(code),
            !pressed && pre.prev()[code] ==> post.released_now(code),
            !pressed ==> !post.pressed_now(code),
            pressed ==> !post.released_now(code),
    {
    }
}

} // verus!
