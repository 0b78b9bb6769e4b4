use vstd::prelude::*;

verus! {

/// The keys that the engine reacts to.
#[derive(Clone, Copy, Debug, PartialEq, Eq, Structural, Hash)]
pub enum KeyCode {
    Escape,
    Up,
    Down,
    Left,
    Right,
    Space,
    Key1,
    Key2,
    Key3,
    Key4,
    Key5,
    Key6,
    Key7,
    Key8,
    Key9,
    A,
    C,
    D,
    H,
    M,
    S,
    W,
    X,
    Z,
    LeftShift,
    RightShift,
    LeftControl,
    RightControl,
    LeftAlt,
    RightAlt,
}

/// One sample of user input.
pub struct Input {
    /// Pointer position in tenths of a logical unit (see `fit_input_to_screen`).
    pub mouse_pos: (i64, i64),
    /// Wheel movement; only the sign of each axis matters.
    pub mouse_wheel: (i32, i32),
    /// Left, middle and right buttons.
    pub mouse_down: [bool; 3],
    pub mouse_pressed: [bool; 3],
    pub mouse_released: [bool; 3],
    /// Keys held down, pressed in this step and released in this step.
    pub down_keys: Vec<KeyCode>,
    pub pressed_keys: Vec<KeyCode>,
    pub released_keys: Vec<KeyCode>,
}

pub fn has_key_code(keys: &Vec<KeyCode>, key: KeyCode) -> (r: bool)
    ensures
        r == keys@.contains(key),
{
    let mut i: usize = 0;
    while i < keys.len()
        invariant
            i <= keys@.len(),
            forall|j: int| 0 <= j < i ==> keys@[j] != key,
        decreases keys@.len() - i,
    {
        if keys[i] == key {
            return true;
        }
        i = i + 1;
    }
    false
}

/// The modifier keys held down.
#[derive(Clone, Copy, Debug, PartialEq, Eq, Structural)]
pub struct Modifiers {
    pub shift: bool,
    pub ctrl: bool,
    pub alt: bool,
}

impl Modifiers {
    pub open spec fn of(down: Seq<KeyCode>) -> Modifiers {
        Modifiers {
            shift: down.contains(KeyCode::LeftShift) || down.contains(KeyCode::RightShift),
            ctrl: down.contains(KeyCode::LeftControl) || down.contains(KeyCode::RightControl),
            alt: down.contains(KeyCode::LeftAlt) || down.contains(KeyCode::RightAlt),
        }
    }

    pub open spec fn none(self) -> bool {
        !self.shift && !self.ctrl && !self.alt
    }

    pub open spec fn ctrl_only(self) -> bool {
        self.ctrl && !self.shift && !self.alt
    }

    pub fn held(input: &Input) -> (r: Modifiers)
        ensures
            r == Modifiers::of(input.down_keys@),
    {
        Modifiers {
            shift: has_key_code(&input.down_keys, KeyCode::LeftShift) || has_key_code(
                &input.down_keys,
                KeyCode::RightShift,
            ),
            ctrl: has_key_code(&input.down_keys, KeyCode::LeftControl) || has_key_code(
                &input.down_keys,
                KeyCode::RightControl,
            ),
            alt: has_key_code(&input.down_keys, KeyCode::LeftAlt) || has_key_code(
                &input.down_keys,
                KeyCode::RightAlt,
            ),
        }
    }
}

/// The digit key among `keys`, as 0 for key 1 up to 8 for key 9; the smallest
/// one when several are there.
pub open spec fn digit_of(keys: Seq<KeyCode>) -> Option<nat> {
    if keys.contains(KeyCode::Key1) {
        Some(0)
    } else if keys.contains(KeyCode::Key2) {
        Some(1)
    } else if keys.contains(KeyCode::Key3) {
        Some(2)
    } else if keys.contains(KeyCode::Key4) {
        Some(3)
    } else if keys.contains(KeyCode::Key5) {
        Some(4)
    } else if keys.contains(KeyCode::Key6) {
        Some(5)
    } else if keys.contains(KeyCode::Key7) {
        Some(6)
    } else if keys.contains(KeyCode::Key8) {
        Some(7)
    } else if keys.contains(KeyCode::Key9) {
        Some(8)
    } else {
        None
    }
}

pub fn digit_pressed(keys: &Vec<KeyCode>) -> (r: Option<usize>)
    ensures
        r == match digit_of(keys@) {
            Some(n) => Some(n as usize),
            None => None::<usize>,
        },
        r matches Some(n) ==> n <= 8,
{
    if has_key_code(keys, KeyCode::Key1) {
        Some(0)
    } else if has_key_code(keys, KeyCode::Key2) {
        Some(1)
    } else if has_key_code(keys, KeyCode::Key3) {
        Some(2)
    } else if has_key_code(keys, KeyCode::Key4) {
        Some(3)
    } else if has_key_code(keys, KeyCode::Key5) {
        Some(4)
    } else if has_key_code(keys, KeyCode::Key6) {
        Some(5)
    } else if has_key_code(keys, KeyCode::Key7) {
        Some(6)
    } else if has_key_code(keys, KeyCode::Key8) {
        Some(7)
    } else if has_key_code(keys, KeyCode::Key9) {
        Some(8)
    } else {
        None
    }
}

} // verus!
