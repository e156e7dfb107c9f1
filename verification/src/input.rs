use vstd::prelude::*;
use std::collections::HashSet;

verus! {

/// A key of the keyboard, by its code.
#[derive(Clone, Copy, PartialEq, Eq, Structural, Debug, Hash)]
pub struct Keycode(pub i32);

/// A button of the pointing device.
#[derive(Clone, Copy, PartialEq, Eq, Structural, Debug, Hash)]
pub enum MouseButton {
    Unknown,
    Left,
    Middle,
    Right,
    X1,
    X2,
}

impl MouseButton {
    /// The number that stands for the button in a snapshot.
    pub open spec fn code_of(self) -> u8 {
        match self {
            MouseButton::Unknown => 0,
            MouseButton::Left => 1,
            MouseButton::Middle => 2,
            MouseButton::Right => 3,
            MouseButton::X1 => 4,
            MouseButton::X2 => 5,
        }
    }

    /// The number that stands for the button in a snapshot. Different
    /// buttons have different numbers.
    pub fn code(self) -> (code: u8)
        ensures
            code == self.code_of(),
    {
        match self {
            MouseButton::Unknown => 0,
            MouseButton::Left => 1,
            MouseButton::Middle => 2,
            MouseButton::Right => 3,
            MouseButton::X1 => 4,
            MouseButton::X2 => 5,
        }
    }
}

/// The state of the input devices as it was read at the start of a frame,
/// with the keys that were down one frame earlier.
pub struct InputSnapshot {
    keys: HashSet<i32>,
    previous_keys: HashSet<i32>,
    buttons: HashSet<u8>,
    mouse: (i32, i32),
}

/// What a snapshot holds: the keys and buttons that are down, the keys that
/// were down in the frame before, and where the pointer is.
pub ghost struct InputView {
    pub keys: Set<Keycode>,
    pub previous_keys: Set<Keycode>,
    pub buttons: Set<MouseButton>,
    pub mouse: (i32, i32),
}

/// The keys whose codes are in `codes`.
pub open spec fn keys_of(codes: Set<i32>) -> Set<Keycode> {
    Set::new(|key: Keycode| codes.contains(key.0))
}

/// The buttons whose numbers are in `codes`.
pub open spec fn buttons_of(codes: Set<u8>) -> Set<MouseButton> {
    Set::new(|button: MouseButton| codes.contains(button.code_of()))
}

impl InputSnapshot {
    pub closed spec fn view(&self) -> InputView {
        InputView {
            keys: keys_of(self.keys@),
            previous_keys: keys_of(self.previous_keys@),
            buttons: buttons_of(self.buttons@),
            mouse: self.mouse,
        }
    }

    /// A snapshot in which nothing is down and nothing was, with the pointer
    /// at the origin.
    pub fn new() -> (snapshot: Self)
        ensures
            snapshot@ == (InputView {
                keys: Set::<Keycode>::empty(),
                previous_keys: Set::<Keycode>::empty(),
                buttons: Set::<MouseButton>::empty(),
                mouse: (0, 0),
            }),
    {
        let snapshot = InputSnapshot {
            keys: HashSet::new(),
            previous_keys: HashSet::new(),
            buttons: HashSet::new(),
            mouse: (0, 0),
        };
        assert(snapshot@.keys =~= Set::<Keycode>::empty());
        assert(snapshot@.previous_keys =~= Set::<Keycode>::empty());
        assert(snapshot@.buttons =~= Set::<MouseButton>::empty());
        snapshot
    }

    /// Takes what the devices report at the start of a frame. The keys of
    /// the snapshot so far become the keys of the frame before.
    pub fn advance(
        &mut self,
        keys: &Vec<Keycode>,
        buttons: &Vec<MouseButton>,
        mouse: (i32, i32),
    )
        ensures
            final(self)@ == (InputView {
                keys: keys@.to_set(),
                previous_keys: old(self)@.keys,
                buttons: buttons@.to_set(),
                mouse,
            }),
    {
        let mut down: HashSet<i32> = HashSet::new();
        let mut i: usize = 0;
        while i < keys.len()
            invariant
                i <= keys@.len(),
                forall|code: i32|
                    down@.contains(code) <==> exists|k: int|
                        0 <= k < i && (#[trigger] keys@[k]).0 == code,
            decreases keys@.len() - i,
        {
            down.insert(keys[i].0);
            i += 1;
        }
        let mut held: HashSet<u8> = HashSet::new();
        let mut j: usize = 0;
        while j < buttons.len()
            invariant
                j <= buttons@.len(),
                forall|code: u8|
                    held@.contains(code) <==> exists|k: int|
                        0 <= k < j && (#[trigger] buttons@[k]).code_of() == code,
            decreases buttons@.len() - j,
        {
            held.insert(buttons[j].code());
            j += 1;
        }
        core::mem::swap(&mut self.keys, &mut down);
        self.previous_keys = down;
        self.buttons = held;
        self.mouse = mouse;
        proof {
            assert forall|key: Keycode| keys@.to_set().contains(key) <==> self@.keys.contains(
                key,
            ) by {
                if keys@.to_set().contains(key) {
                    let k = choose|k: int| 0 <= k < keys@.len() && keys@[k] == key;
                    assert(keys@[k].0 == key.0);
                }
                if self@.keys.contains(key) {
                    let k = choose|k: int| 0 <= k < keys@.len() && (#[trigger] keys@[k]).0 == key.0;
                    assert(keys@[k] == key);
                }
            }
            assert(self@.keys =~= keys@.to_set());
            assert forall|button: MouseButton|
                buttons@.to_set().contains(button) <==> self@.buttons.contains(button) by {
                if buttons@.to_set().contains(button) {
                    let k = choose|k: int| 0 <= k < buttons@.len() && buttons@[k] == button;
                    assert(buttons@[k].code_of() == button.code_of());
                }
                if self@.buttons.contains(button) {
                    let k = choose|k: int|
                        0 <= k < buttons@.len() && (#[trigger] buttons@[k]).code_of()
                            == button.code_of();
                    assert(buttons@[k] == button);
                }
            }
            assert(self@.buttons =~= buttons@.to_set());
        }
    }

    /// Whether the key is down in this frame.
    pub fn key_pressed(&self, key: Keycode) -> (down: bool)
        ensures
            down == self@.keys.contains(key),
    {
        self.keys.contains(&key.0)
    }

    /// Whether the key is down in this frame and was not in the frame
    /// before.
    pub fn key_just_pressed(&self, key: Keycode) -> (pressed: bool)
        ensures
            pressed == (self@.keys.contains(key) && !self@.previous_keys.contains(key)),
    {
        self.keys.contains(&key.0) && !self.previous_keys.contains(&key.0)
    }

    /// Whether the button is down in this frame.
    pub fn mouse_button_pressed(&self, button: MouseButton) -> (down: bool)
        ensures
            down == self@.buttons.contains(button),
    {
        let code: u8 = button.code();
        self.buttons.contains(&code)
    }

    /// Where the pointer is in this frame.
    pub fn mouse_position(&self) -> (at: (i32, i32))
        ensures
            at == self@.mouse,
    {
        self.mouse
    }
}

} // verus!
