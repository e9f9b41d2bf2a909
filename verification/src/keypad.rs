//! The sixteen-key hexadecimal keypad.

use vstd::prelude::*;

verus! {

/// The number of keys, `0` to `F`.
pub const KEY_COUNT: usize = 16;

/// Which keys are held down. The front end keeps it up to date; the engine
/// only reads it.
pub struct Keypad {
    keys: [bool; 16],
}

impl View for Keypad {
    type V = Seq<bool>;

    closed spec fn view(&self) -> Seq<bool> {
        self.keys@
    }
}

/// Whether `key` is one of the sixteen keys and is held down in `keys`.
pub open spec fn key_down(keys: Seq<bool>, key: u8) -> bool {
    key < KEY_COUNT && keys[key as int]
}

impl Keypad {
    /// A keypad with no key held down.
    pub fn new() -> (r: Self)
        ensures
            r@ == Seq::new(KEY_COUNT as nat, |k: int| false),
    {
        let r = Keypad { keys: [false; 16] };
        assert(r.keys@ =~= Seq::new(KEY_COUNT as nat, |k: int| false));
        r
    }

    /// Marks `key` as held down. There is no key above `F`: such a number
    /// changes nothing.
    pub fn press(&mut self, key: u8)
        ensures
            final(self)@.len() == KEY_COUNT,
            final(self)@ == if key < KEY_COUNT {
                old(self)@.update(key as int, true)
            } else {
                old(self)@
            },
    {
        if (key as usize) < KEY_COUNT {
            self.keys[key as usize] = true;
        }
    }

    /// Marks `key` as released. There is no key above `F`: such a number
    /// changes nothing.
    pub fn release(&mut self, key: u8)
        ensures
            final(self)@.len() == KEY_COUNT,
            final(self)@ == if key < KEY_COUNT {
                old(self)@.update(key as int, false)
            } else {
                old(self)@
            },
    {
        if (key as usize) < KEY_COUNT {
            self.keys[key as usize] = false;
        }
    }

    /// Whether `key` is held down. There is no key above `F`: such a number
    /// is never down.
    pub fn is_down(&self, key: u8) -> (down: bool)
        ensures
            self@.len() == KEY_COUNT,
            down == key_down(self@, key),
    {
        (key as usize) < KEY_COUNT && self.keys[key as usize]
    }
}

impl Default for Keypad {
    fn default() -> (r: Self)
        ensures
            r@ == Seq::new(KEY_COUNT as nat, |k: int| false),
    {
        Self::new()
    }
}

} // verus!
