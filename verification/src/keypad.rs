//! The sixteen-key hex keypad, as the host last reported it.

use vstd::prelude::*;

verus! {

/// Number of keys.
pub const KEY_COUNT: usize = 16;

/// Which keys are down.
pub struct Keypad {
    keys: [bool; KEY_COUNT],
}

impl Keypad {
    /// For each key 0 to F, whether it is down.
    pub closed spec fn view(&self) -> Seq<bool> {
        self.keys@
    }

    /// There are always `KEY_COUNT` keys.
    pub proof fn lemma_len(&self)
        ensures
            self@.len() == KEY_COUNT,
    {
    }

    /// A keypad with every key up.
    pub fn new() -> (pad: Keypad)
        ensures
            pad@ == Seq::new(KEY_COUNT as nat, |k: int| false),
    {
        let pad = Keypad { keys: [false;KEY_COUNT] };
        assert(pad.keys@ =~= Seq::new(KEY_COUNT as nat, |k: int| false));
        pad
    }

    /// Releases every key.
    pub fn reset(&mut self)
        ensures
            final(self)@ == Seq::new(KEY_COUNT as nat, |k: int| false),
    {
        let mut k: usize = 0;
        while k < KEY_COUNT
            invariant
                k <= KEY_COUNT,
                forall|j: int| 0 <= j < k ==> self.keys@[j] == false,
            decreases KEY_COUNT - k,
        {
            self.keys[k] = false;
            k += 1;
        }
        assert(self.keys@ =~= Seq::new(KEY_COUNT as nat, |k: int| false));
    }

    /// Records that key `index` is now down or up. The result tells whether this
    /// is a fresh press: the key was up and is now down.
    pub fn set_key_state(&mut self, index: u8, pressed: bool) -> (fresh: bool)
        requires
            index < KEY_COUNT,
        ensures
            final(self)@ == old(self)@.update(index as int, pressed),
            fresh == (pressed && !old(self)@[index as int]),
    {
        let was_down = self.keys[index as usize];
        self.keys[index as usize] = pressed;
        pressed && !was_down
    }

    /// Whether key `index` is down.
    pub fn is_pressed(&self, index: u8) -> (down: bool)
        requires
            index < KEY_COUNT,
        ensures
            down == self@[index as int],
    {
        self.keys[index as usize]
    }
}

} // verus!
