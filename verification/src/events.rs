//! The input snapshot of one frame: where the pointer is, which buttons and
//! keys are down, and which of them went down or up since the last frame.

use vstd::prelude::*;
use crate::units::{sat_sub, saturate};

verus! {

/// A key of the keyboard.
#[derive(Debug, PartialEq, Eq, Hash, Clone, Copy, Structural)]
pub enum Key {
    Unknown,
    A,
    B,
    C,
    D,
    E,
    F,
    G,
    H,
    I,
    J,
    K,
    L,
    M,
    N,
    O,
    P,
    Q,
    R,
    S,
    T,
    U,
    V,
    W,
    X,
    Y,
    Z,
    Num1,
    Num2,
    Num3,
    Num4,
    Num5,
    Num6,
    Num7,
    Num8,
    Num9,
    Num0,
    Escape,
    F1,
    F2,
    F3,
    F4,
    F5,
    F6,
    F7,
    F8,
    F9,
    F10,
    F11,
    F12,
    F13,
    F14,
    F15,
    F16,
    F17,
    F18,
    F19,
    F20,
    F21,
    F22,
    F23,
    F24,
    LControl,
    LShift,
    LAlt,
    RControl,
    RShift,
    RAlt,
    LBracket,
    RBracket,
    Semicolon,
    Comma,
    Period,
    Quote,
    Slash,
    Backslash,
    Equal,
    Minus,
    Space,
    Enter,
    Backspace,
    Delete,
    Insert,
    Home,
    End,
    PageUp,
    PageDown,
    Up,
    Down,
    Left,
    Right,
    Numpad0,
    Numpad1,
    Numpad2,
    Numpad3,
    Numpad4,
    Numpad5,
    Numpad6,
    Numpad7,
    Numpad8,
    Numpad9,
    NumpadDivide,
    NumpadMultiply,
    NumpadSubtract,
    NumpadAdd,
    NumpadDecimal,
}

/// What a key types: a letter key its lower-case letter, a digit key of the
/// row or of the number pad its digit, and so on; nothing for a key that
/// types nothing.
pub open spec fn key_text(k: Key) -> Seq<char> {
    match k {
        Key::Enter => "\r\n"@,
        Key::Space => " "@,
        Key::Comma => ","@,
        Key::Quote => "'"@,
        Key::A => "a"@,
        Key::B => "b"@,
        Key::C => "c"@,
        Key::D => "d"@,
        Key::E => "e"@,
        Key::F => "f"@,
        Key::G => "g"@,
        Key::H => "h"@,
        Key::I => "i"@,
        Key::J => "j"@,
        Key::K => "k"@,
        Key::L => "l"@,
        Key::M => "m"@,
        Key::N => "n"@,
        Key::O => "o"@,
        Key::P => "p"@,
        Key::Q => "q"@,
        Key::R => "r"@,
        Key::S => "s"@,
        Key::T => "t"@,
        Key::U => "u"@,
        Key::V => "v"@,
        Key::W => "w"@,
        Key::X => "x"@,
        Key::Y => "y"@,
        Key::Z => "z"@,
        Key::Num0 => "0"@,
        Key::Num1 => "1"@,
        Key::Num2 => "2"@,
        Key::Num3 => "3"@,
        Key::Num4 => "4"@,
        Key::Num5 => "5"@,
        Key::Num6 => "6"@,
        Key::Num7 => "7"@,
        Key::Num8 => "8"@,
        Key::Num9 => "9"@,
        Key::Numpad0 => "0"@,
        Key::Numpad1 => "1"@,
        Key::Numpad2 => "2"@,
        Key::Numpad3 => "3"@,
        Key::Numpad4 => "4"@,
        Key::Numpad5 => "5"@,
        Key::Numpad6 => "6"@,
        Key::Numpad7 => "7"@,
        Key::Numpad8 => "8"@,
        Key::Numpad9 => "9"@,
        _ => ""@,
    }
}

impl Key {
    /// What the key types.
    pub fn text(&self) -> (s: &'static str)
        ensures
            s@ == key_text(*self),
    {
        match self {
            Key::Enter => "\r\n",
            Key::Space => " ",
            Key::Comma => ",",
            Key::Quote => "'",
            Key::A => "a",
            Key::B => "b",
            Key::C => "c",
            Key::D => "d",
            Key::E => "e",
            Key::F => "f",
            Key::G => "g",
            Key::H => "h",
            Key::I => "i",
            Key::J => "j",
            Key::K => "k",
            Key::L => "l",
            Key::M => "m",
            Key::N => "n",
            Key::O => "o",
            Key::P => "p",
            Key::Q => "q",
            Key::R => "r",
            Key::S => "s",
            Key::T => "t",
            Key::U => "u",
            Key::V => "v",
            Key::W => "w",
            Key::X => "x",
            Key::Y => "y",
            Key::Z => "z",
            Key::Num0 => "0",
            Key::Num1 => "1",
            Key::Num2 => "2",
            Key::Num3 => "3",
            Key::Num4 => "4",
            Key::Num5 => "5",
            Key::Num6 => "6",
            Key::Num7 => "7",
            Key::Num8 => "8",
            Key::Num9 => "9",
            Key::Numpad0 => "0",
            Key::Numpad1 => "1",
            Key::Numpad2 => "2",
            Key::Numpad3 => "3",
            Key::Numpad4 => "4",
            Key::Numpad5 => "5",
            Key::Numpad6 => "6",
            Key::Numpad7 => "7",
            Key::Numpad8 => "8",
            Key::Numpad9 => "9",
            _ => "",
        }
    }
}

/// A button of the mouse.
#[derive(Debug, PartialEq, Eq, Clone, Copy, Structural)]
pub enum MouseButton {
    Left,
    Right,
    Middle,
}

/// The state of one mouse button.
#[derive(Debug, PartialEq, Eq, Clone, Copy, Structural)]
pub struct ButtonState {
    /// The button is down.
    pub pressed: bool,
    /// The button went down since the last frame.
    pub just_pressed: bool,
    /// The button went up since the last frame.
    pub just_released: bool,
}

/// The state of a button after the host reports it down or up: it was just
/// pressed if it is down and was not, just released if it is up and was
/// down.
pub open spec fn button_after(before: ButtonState, pressed: bool) -> ButtonState {
    ButtonState {
        pressed,
        just_pressed: pressed && !before.pressed,
        just_released: !pressed && before.pressed,
    }
}

/// The pointer: position, movement since the last event, buttons, wheel.
#[derive(Debug, Clone, Copy)]
pub struct Mouse {
    pub x: i32,
    pub y: i32,
    pub dx: i32,
    pub dy: i32,
    pub left_pressed: bool,
    pub left_just_pressed: bool,
    pub left_just_released: bool,
    pub right_pressed: bool,
    pub right_just_pressed: bool,
    pub right_just_released: bool,
    pub middle_pressed: bool,
    pub middle_just_pressed: bool,
    pub middle_just_released: bool,
    pub scroll_x: i32,
    pub scroll_y: i32,
}

/// The pointer at rest at the origin, nothing pressed.
pub open spec fn mouse_at_rest() -> Mouse {
    Mouse {
        x: 0,
        y: 0,
        dx: 0,
        dy: 0,
        left_pressed: false,
        left_just_pressed: false,
        left_just_released: false,
        right_pressed: false,
        right_just_pressed: false,
        right_just_released: false,
        middle_pressed: false,
        middle_just_pressed: false,
        middle_just_released: false,
        scroll_x: 0,
        scroll_y: 0,
    }
}

/// Whether the point `(px, py)` lies in the rectangle at `(x, y)` of `w` by
/// `h`, its four edges included.
pub open spec fn point_in_rect(px: int, py: int, x: int, y: int, w: int, h: int) -> bool {
    x <= px <= x + w && y <= py <= y + h
}

/// Whether the point `(px, py)` lies in the rectangle at `(x, y)` of `w` by
/// `h`, its four edges included.
pub fn hit(px: i32, py: i32, x: i32, y: i32, w: i32, h: i32) -> (r: bool)
    ensures
        r == point_in_rect(px as int, py as int, x as int, y as int, w as int, h as int),
{
    px >= x && px as i64 <= x as i64 + w as i64 && py >= y && py as i64 <= y as i64 + h as i64
}

impl Default for Mouse {
    fn default() -> (m: Self)
        ensures
            m == mouse_at_rest(),
    {
        Mouse {
            x: 0,
            y: 0,
            dx: 0,
            dy: 0,
            left_pressed: false,
            left_just_pressed: false,
            left_just_released: false,
            right_pressed: false,
            right_just_pressed: false,
            right_just_released: false,
            middle_pressed: false,
            middle_just_pressed: false,
            middle_just_released: false,
            scroll_x: 0,
            scroll_y: 0,
        }
    }
}

impl Mouse {
    /// The state of one button.
    pub open spec fn spec_button(&self, button: MouseButton) -> ButtonState {
        match button {
            MouseButton::Left => ButtonState {
                pressed: self.left_pressed,
                just_pressed: self.left_just_pressed,
                just_released: self.left_just_released,
            },
            MouseButton::Right => ButtonState {
                pressed: self.right_pressed,
                just_pressed: self.right_just_pressed,
                just_released: self.right_just_released,
            },
            MouseButton::Middle => ButtonState {
                pressed: self.middle_pressed,
                just_pressed: self.middle_just_pressed,
                just_released: self.middle_just_released,
            },
        }
    }

    /// The same pointer with another state of one button.
    pub open spec fn with_button(self, button: MouseButton, s: ButtonState) -> Mouse {
        match button {
            MouseButton::Left => Mouse {
                left_pressed: s.pressed,
                left_just_pressed: s.just_pressed,
                left_just_released: s.just_released,
                ..self
            },
            MouseButton::Right => Mouse {
                right_pressed: s.pressed,
                right_just_pressed: s.just_pressed,
                right_just_released: s.just_released,
                ..self
            },
            MouseButton::Middle => Mouse {
                middle_pressed: s.pressed,
                middle_just_pressed: s.just_pressed,
                middle_just_released: s.just_released,
                ..self
            },
        }
    }

    /// The pointer as a new frame finds it: where it was, with the buttons
    /// that are down, and no movement, scrolling, press or release.
    pub open spec fn settled(self) -> Mouse {
        Mouse {
            dx: 0,
            dy: 0,
            left_just_pressed: false,
            left_just_released: false,
            right_just_pressed: false,
            right_just_released: false,
            middle_just_pressed: false,
            middle_just_released: false,
            scroll_x: 0,
            scroll_y: 0,
            ..self
        }
    }

    /// Whether the pointer is over the rectangle at `(x, y)` of `w` by `h`,
    /// its edges included.
    pub fn over(&self, x: i32, y: i32, w: i32, h: i32) -> (r: bool)
        ensures
            r == point_in_rect(self.x as int, self.y as int, x as int, y as int, w as int, h as int),
    {
        hit(self.x, self.y, x, y, w, h)
    }

    /// The state of one button.
    #[verifier::when_used_as_spec(spec_button)]
    pub fn button(&self, button: MouseButton) -> (s: ButtonState)
        ensures
            s == self.spec_button(button),
    {
        match button {
            MouseButton::Left => ButtonState {
                pressed: self.left_pressed,
                just_pressed: self.left_just_pressed,
                just_released: self.left_just_released,
            },
            MouseButton::Right => ButtonState {
                pressed: self.right_pressed,
                just_pressed: self.right_just_pressed,
                just_released: self.right_just_released,
            },
            MouseButton::Middle => ButtonState {
                pressed: self.middle_pressed,
                just_pressed: self.middle_just_pressed,
                just_released: self.middle_just_released,
            },
        }
    }

    /// The pointer moved to `(x, y)`: the movement is the difference to
    /// where it was.
    pub fn move_to(&mut self, x: i32, y: i32)
        ensures
            *final(self) == (Mouse {
                x,
                y,
                dx: saturate(x - old(self).x) as i32,
                dy: saturate(y - old(self).y) as i32,
                ..*old(self)
            }),
    {
        self.dx = sat_sub(x, self.x);
        self.dy = sat_sub(y, self.y);
        self.x = x;
        self.y = y;
    }

    /// A button was reported down or up. The other buttons stay as they
    /// are.
    pub fn set_button(&mut self, button: MouseButton, pressed: bool)
        ensures
            *final(self) == old(self).with_button(
                button,
                button_after(old(self).spec_button(button), pressed),
            ),
    {
        match button {
            MouseButton::Left => {
                self.left_just_pressed = pressed && !self.left_pressed;
                self.left_just_released = !pressed && self.left_pressed;
                self.left_pressed = pressed;
            },
            MouseButton::Right => {
                self.right_just_pressed = pressed && !self.right_pressed;
                self.right_just_released = !pressed && self.right_pressed;
                self.right_pressed = pressed;
            },
            MouseButton::Middle => {
                self.middle_just_pressed = pressed && !self.middle_pressed;
                self.middle_just_released = !pressed && self.middle_pressed;
                self.middle_pressed = pressed;
            },
        }
    }

    /// The wheel was turned.
    pub fn scroll(&mut self, x: i32, y: i32)
        ensures
            *final(self) == (Mouse { scroll_x: x, scroll_y: y, ..*old(self) }),
    {
        self.scroll_x = x;
        self.scroll_y = y;
    }
}

/// Whether `key` is among `keys`.
fn holds(keys: &Vec<Key>, key: Key) -> (r: bool)
    ensures
        r == keys@.contains(key),
{
    let mut i: usize = 0;
    while i < keys.len()
        invariant
            i <= keys@.len(),
            forall|j: int| 0 <= j < i ==> keys@[j] != key,
        decreases keys@.len() - i,
    {
        if keys[i] == key {
            return true;
        }
        i += 1;
    }
    false
}

/// The test that `without` keeps a key by: it is another key than `key`.
pub open spec fn other_than(key: Key) -> spec_fn(Key) -> bool {
    |k: Key| k != key
}

/// `keys` without `key`, in the same order.
fn without(keys: &Vec<Key>, key: Key) -> (r: Vec<Key>)
    ensures
        r@ == keys@.filter(other_than(key)),
        forall|k: Key| r@.contains(k) <==> (keys@.contains(k) && k != key),
        keys@.no_duplicates() ==> r@.no_duplicates(),
{
    let mut out: Vec<Key> = Vec::new();
    let mut i: usize = 0;
    proof {
        reveal(Seq::filter);
        assert(keys@.subrange(0, 0).filter(other_than(key)) =~= Seq::<Key>::empty());
    }
    while i < keys.len()
        invariant
            i <= keys@.len(),
            out@ == keys@.subrange(0, i as int).filter(other_than(key)),
            forall|k: Key| out@.contains(k) <==> (keys@.subrange(0, i as int).contains(k) && k != key),
            keys@.no_duplicates() ==> out@.no_duplicates(),
        decreases keys@.len() - i,
    {
        let ghost before = out@;
        if keys[i] != key {
            out.push(keys[i]);
        }
        proof {
            let pre = keys@.subrange(0, i as int);
            let post = keys@.subrange(0, i + 1);
            assert(post =~= pre.push(keys@[i as int]));
            assert(post.drop_last() =~= pre);
            assert(post.last() == keys@[i as int]);
            reveal(Seq::filter);
            assert(out@ == post.filter(other_than(key)));
            assert forall|k: Key| out@.contains(k) <==> (post.contains(k) && k != key) by {
                if post.contains(k) {
                    let j = choose|j: int| 0 <= j < post.len() && post[j] == k;
                    if j < i {
                        assert(pre[j] == k);
                    }
                }
                if pre.contains(k) {
                    let j = choose|j: int| 0 <= j < pre.len() && pre[j] == k;
                    assert(post[j] == k);
                }
                assert(post[i as int] == keys@[i as int]);
                if out@.contains(k) {
                    let j = choose|j: int| 0 <= j < out@.len() && out@[j] == k;
                    if j < before.len() {
                        assert(before[j] == k);
                    }
                }
                if before.contains(k) {
                    let j = choose|j: int| 0 <= j < before.len() && before[j] == k;
                    assert(out@[j] == k);
                }
                if keys@[i as int] != key {
                    assert(out@[before.len() as int] == keys@[i as int]);
                }
            }
            if keys@.no_duplicates() && keys@[i as int] != key {
                if before.contains(keys@[i as int]) {
                    let j = choose|j: int| 0 <= j < pre.len() && pre[j] == keys@[i as int];
                    assert(keys@[j] == keys@[i as int]);
                }
                lemma_push_keeps_once(before, keys@[i as int]);
            }
        }
        i += 1;
    }
    assert(keys@.subrange(0, keys@.len() as int) =~= keys@);
    out
}

/// A list in which no key occurs twice stays such a list when a key that
/// is not in it is put at its end.
proof fn lemma_push_keeps_once(s: Seq<Key>, key: Key)
    requires
        s.no_duplicates(),
        !s.contains(key),
    ensures
        s.push(key).no_duplicates(),
{
    let t = s.push(key);
    assert forall|i: int, j: int| 0 <= i < t.len() && 0 <= j < t.len() && i != j implies t[i] != t[j] by {
        if i < s.len() && j < s.len() {
            assert(s[i] != s[j]);
        } else if i < s.len() {
            assert(s.contains(s[i]));
        } else {
            assert(s.contains(s[j]));
        }
    }
}

/// The keys that are down, and those that went down or up since the last
/// frame. Each list stands for the set of the keys in it; a keyboard that
/// is only changed through `press`, `release` and
/// `Events::clear_frame_state` holds every key at most once in each list.
#[derive(Debug)]
pub struct Keyboard {
    pub pressed: Vec<Key>,
    pub just_pressed: Vec<Key>,
    pub just_released: Vec<Key>,
}

impl Default for Keyboard {
    fn default() -> (k: Self)
        ensures
            k.pressed@ == Seq::<Key>::empty(),
            k.just_pressed@ == Seq::<Key>::empty(),
            k.just_released@ == Seq::<Key>::empty(),
            k.wf(),
    {
        Keyboard { pressed: Vec::new(), just_pressed: Vec::new(), just_released: Vec::new() }
    }
}

/// `keys` with `key` in it: as it is where it holds the key already, else
/// with the key at its end.
pub open spec fn with_key(keys: Seq<Key>, key: Key) -> Seq<Key> {
    if keys.contains(key) {
        keys
    } else {
        keys.push(key)
    }
}

impl Keyboard {
    /// What every keyboard holds that was made by `default` and changed
    /// through its methods: no key occurs twice in one of the three lists.
    pub open spec fn wf(&self) -> bool {
        &&& self.pressed@.no_duplicates()
        &&& self.just_pressed@.no_duplicates()
        &&& self.just_released@.no_duplicates()
    }

    /// Puts a key into a list unless it is there.
    fn put(keys: &mut Vec<Key>, key: Key)
        ensures
            final(keys)@ == with_key(old(keys)@, key),
            forall|k: Key| final(keys)@.contains(k) <==> (old(keys)@.contains(k) || k == key),
            old(keys)@.no_duplicates() ==> final(keys)@.no_duplicates(),
    {
        let ghost before = keys@;
        if !holds(keys, key) {
            keys.push(key);
            proof {
                lemma_push_contains(before, key);
                if before.no_duplicates() {
                    lemma_push_keeps_once(before, key);
                }
            }
        }
    }

    /// Whether the key is down.
    pub fn is_pressed(&self, key: Key) -> (r: bool)
        ensures
            r == self.pressed@.contains(key),
    {
        holds(&self.pressed, key)
    }

    /// Whether the key went down since the last frame.
    pub fn is_just_pressed(&self, key: Key) -> (r: bool)
        ensures
            r == self.just_pressed@.contains(key),
    {
        holds(&self.just_pressed, key)
    }

    /// Whether the key went up since the last frame.
    pub fn is_just_released(&self, key: Key) -> (r: bool)
        ensures
            r == self.just_released@.contains(key),
    {
        holds(&self.just_released, key)
    }

    /// A key was reported down: it is down, and it went down in this frame.
    /// It joins each of the two lists at the end unless it is there. No
    /// other key changes, and no key comes to occur twice.
    pub fn press(&mut self, key: Key)
        ensures
            final(self).pressed@ == with_key(old(self).pressed@, key),
            final(self).just_pressed@ == with_key(old(self).just_pressed@, key),
            final(self).just_released@ == old(self).just_released@,
            forall|k: Key| final(self).pressed@.contains(k) <==> (old(self).pressed@.contains(k) || k == key),
            forall|k: Key|
                final(self).just_pressed@.contains(k) <==> (old(self).just_pressed@.contains(k) || k
                    == key),
            old(self).wf() ==> final(self).wf(),
    {
        Self::put(&mut self.pressed, key);
        Self::put(&mut self.just_pressed, key);
    }

    /// A key was reported up: it is no longer down, and it went up in this
    /// frame. It leaves the list of the keys that are down, which keeps its
    /// order, and joins the list of the released keys at the end unless it
    /// is there. No other key changes, and no key comes to occur twice.
    pub fn release(&mut self, key: Key)
        ensures
            final(self).pressed@ == old(self).pressed@.filter(other_than(key)),
            final(self).just_released@ == with_key(old(self).just_released@, key),
            final(self).just_pressed@ == old(self).just_pressed@,
            forall|k: Key| final(self).pressed@.contains(k) <==> (old(self).pressed@.contains(k) && k != key),
            forall|k: Key|
                final(self).just_released@.contains(k) <==> (old(self).just_released@.contains(k)
                    || k == key),
            old(self).wf() ==> final(self).wf(),
    {
        self.pressed = without(&self.pressed, key);
        Self::put(&mut self.just_released, key);
    }
}

/// A list with one more key holds that key and what it held before.
proof fn lemma_push_contains(s: Seq<Key>, key: Key)
    ensures
        forall|k: Key| #![trigger s.push(key).contains(k)] s.push(key).contains(k) <==> (s.contains(k) || k == key),
{
    assert forall|k: Key| #![trigger s.push(key).contains(k)] s.push(key).contains(k) <==> (s.contains(k) || k == key) by {
        let t = s.push(key);
        if t.contains(k) {
            let j = choose|j: int| 0 <= j < t.len() && t[j] == k;
            if j < s.len() {
                assert(s[j] == k);
            }
        }
        if s.contains(k) {
            let j = choose|j: int| 0 <= j < s.len() && s[j] == k;
            assert(t[j] == k);
        }
        assert(t[s.len() as int] == key);
    }
}

/// The input snapshot of one frame.
#[derive(Debug)]
pub struct Events {
    pub mouse: Mouse,
    pub keyboard: Keyboard,
}

impl Default for Events {
    fn default() -> (e: Self)
        ensures
            e.mouse == mouse_at_rest(),
            e.keyboard.pressed@ == Seq::<Key>::empty(),
            e.keyboard.just_pressed@ == Seq::<Key>::empty(),
            e.keyboard.just_released@ == Seq::<Key>::empty(),
            e.keyboard.wf(),
    {
        Events { mouse: Mouse::default(), keyboard: Keyboard::default() }
    }
}

impl Events {
    /// Ends a frame: what was "just" pressed, released, moved or scrolled is
    /// forgotten; what is down stays down.
    pub fn clear_frame_state(&mut self)
        ensures
            final(self).mouse == old(self).mouse.settled(),
            final(self).keyboard.pressed@ == old(self).keyboard.pressed@,
            final(self).keyboard.just_pressed@ == Seq::<Key>::empty(),
            final(self).keyboard.just_released@ == Seq::<Key>::empty(),
            old(self).keyboard.wf() ==> final(self).keyboard.wf(),
    {
        self.mouse.dx = 0;
        self.mouse.dy = 0;
        self.mouse.left_just_pressed = false;
        self.mouse.left_just_released = false;
        self.mouse.right_just_pressed = false;
        self.mouse.right_just_released = false;
        self.mouse.middle_just_pressed = false;
        self.mouse.middle_just_released = false;
        self.mouse.scroll_x = 0;
        self.mouse.scroll_y = 0;
        self.keyboard.just_pressed.clear();
        self.keyboard.just_released.clear();
    }
}

} // verus!
