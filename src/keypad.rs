use vstd::prelude::*;

verus! {

/// The number of keys of the hexadecimal keypad.
pub const NUM_KEYS: usize = 16;

/// Which of the sixteen logical keys are held. Written by the host, read by
/// the interpreter.
pub struct Keypad {
    keys: [bool; NUM_KEYS],
}

impl View for Keypad {
    type V = Seq<bool>;

    closed spec fn view(&self) -> Seq<bool> {
        self.keys@
    }
}

impl Keypad {
    /// A keypad with no key held.
    pub fn new() -> (r: Self)
        ensures
            r@ == Seq::new(16, |_k: int| false),
    {
        let r = Self { keys: [false; NUM_KEYS] };
        assert(r@ =~= Seq::new(16, |_k: int| false));
        r
    }

    /// The state of every key, by logical index.
    pub fn get_keys(&self) -> (r: &[bool; NUM_KEYS])
        ensures
            r@ == self@,
    {
        &self.keys
    }

    /// Marks logical key `key` held. A value outside 0-15 names no key and
    /// changes nothing.
    pub fn key_down(&mut self, key: u8)
        ensures
            key < 16 ==> final(self)@ == old(self)@.update(key as int, true),
            key >= 16 ==> final(self)@ == old(self)@,
    {
        if (key as usize) < NUM_KEYS {
            self.keys[key as usize] = true;
        }
    }

    /// Marks logical key `key` released. A value outside 0-15 names no key
    /// and changes nothing.
    pub fn key_up(&mut self, key: u8)
        ensures
            key < 16 ==> final(self)@ == old(self)@.update(key as int, false),
            key >= 16 ==> final(self)@ == old(self)@,
    {
        if (key as usize) < NUM_KEYS {
            self.keys[key as usize] = false;
        }
    }
}

} // verus!
