use vstd::prelude::*;

verus! {

/// Which control keys are currently held down.
#[derive(Clone, Copy, Debug, PartialEq, Eq, Structural)]
pub struct InputState {
    pub up: bool,
    pub down: bool,
    pub left: bool,
    pub right: bool,
    pub fire: bool,
}

impl InputState {
    /// No key held.
    pub open spec fn idle() -> InputState {
        InputState { up: false, down: false, left: false, right: false, fire: false }
    }
}

impl Default for InputState {
    fn default() -> (s: Self)
        ensures
            s == InputState::idle(),
    {
        InputState { up: false, down: false, left: false, right: false, fire: false }
    }
}

/// The keys the game reacts to; every other key is `Other`.
#[derive(Clone, Copy, Debug, PartialEq, Eq, Structural)]
pub enum Key {
    Up,
    Down,
    Left,
    Right,
    Space,
    Escape,
    Other,
}

/// The input state with the flag of `key` set to `held`; `Escape` and
/// `Other` carry no flag.
pub open spec fn with_key(s: InputState, key: Key, held: bool) -> InputState {
    match key {
        Key::Up => InputState { up: held, ..s },
        Key::Down => InputState { down: held, ..s },
        Key::Left => InputState { left: held, ..s },
        Key::Right => InputState { right: held, ..s },
        Key::Space => InputState { fire: held, ..s },
        Key::Escape => s,
        Key::Other => s,
    }
}

/// Sets the flag of `key` in `s` to `held`.
pub fn set_key(s: &mut InputState, key: Key, held: bool)
    ensures
        *final(s) == with_key(*old(s), key, held),
        key == Key::Up ==> *final(s) == (InputState { up: held, down: old(s).down, left: old(s).left, right: old(s).right, fire: old(s).fire }),
        key == Key::Down ==> *final(s) == (InputState { up: old(s).up, down: held, left: old(s).left, right: old(s).right, fire: old(s).fire }),
        key == Key::Left ==> *final(s) == (InputState { up: old(s).up, down: old(s).down, left: held, right: old(s).right, fire: old(s).fire }),
        key == Key::Right ==> *final(s) == (InputState { up: old(s).up, down: old(s).down, left: old(s).left, right: held, fire: old(s).fire }),
        key == Key::Space ==> *final(s) == (InputState { up: old(s).up, down: old(s).down, left: old(s).left, right: old(s).right, fire: held }),
        key == Key::Escape || key == Key::Other ==> *final(s) == *old(s),
{
    match key {
        Key::Up => { s.up = held; },
        Key::Down => { s.down = held; },
        Key::Left => { s.left = held; },
        Key::Right => { s.right = held; },
        Key::Space => { s.fire = held; },
        Key::Escape => {},
        Key::Other => {},
    }
}

/// Each control key drives exactly its own flag: Up the up flag, Down the
/// down flag, Left the left flag, Right the right flag and Space the fire
/// flag, leaving the others as they were; Escape and any other key drive none.
pub proof fn lemma_key_flags(s: InputState, held: bool)
    ensures
        with_key(s, Key::Up, held) == (InputState { up: held, down: s.down, left: s.left, right: s.right, fire: s.fire }),
        with_key(s, Key::Down, held) == (InputState { up: s.up, down: held, left: s.left, right: s.right, fire: s.fire }),
        with_key(s, Key::Left, held) == (InputState { up: s.up, down: s.down, left: held, right: s.right, fire: s.fire }),
        with_key(s, Key::Right, held) == (InputState { up: s.up, down: s.down, left: s.left, right: held, fire: s.fire }),
        with_key(s, Key::Space, held) == (InputState { up: s.up, down: s.down, left: s.left, right: s.right, fire: held }),
        with_key(s, Key::Escape, held) == s,
        with_key(s, Key::Other, held) == s,
{
}

/// Releasing a key undoes pressing it: pressing and then releasing `key`
/// leaves the same state as releasing it alone, and pressing or releasing
/// one key never changes the flag of another.
pub proof fn lemma_press_then_release(s: InputState, key: Key, other: Key)
    ensures
        with_key(with_key(s, key, true), key, false) == with_key(s, key, false),
        other != key ==> with_key(with_key(s, key, true), other, false) == with_key(with_key(s, other, false), key, true),
{
}

} // verus!
