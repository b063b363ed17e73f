//! The 16-key pad: one "currently held" flag per logical key code.

use vstd::prelude::*;

verus! {

/// Number of logical keys.
pub const KEYS: usize = 16;

/// Whether `k` is the lowest key code that is held.
pub open spec fn is_lowest_pressed(keys: Seq<bool>, k: int) -> bool {
    0 <= k < keys.len() && keys[k] && forall|j: int| 0 <= j < k ==> !keys[j]
}

/// The lowest key code that is held, if any key is.
pub open spec fn lowest_pressed(keys: Seq<bool>) -> Option<u8> {
    if exists|k: int| is_lowest_pressed(keys, k) {
        Some((choose|k: int| is_lowest_pressed(keys, k)) as u8)
    } else {
        None
    }
}

/// Which of the sixteen keys are held right now.
pub struct Keypad {
    pub keys: [bool; 16],
}

impl Keypad {
    /// A pad with no key held.
    pub fn new() -> (pad: Keypad)
        ensures
            pad.keys@ == Seq::new(16, |k: int| false),
    {
        let pad = Keypad { keys: [false; 16] };
        assert(pad.keys@ =~= Seq::new(16, |k: int| false));
        pad
    }

    /// Marks key `i` as held; every other key keeps its state.
    pub fn key_press(&mut self, i: u8)
        requires
            i < 16,
        ensures
            final(self).keys@ == old(self).keys@.update(i as int, true),
    {
        self.keys[i as usize] = true;
    }

    /// Marks key `i` as not held; every other key keeps its state.
    pub fn key_release(&mut self, i: u8)
        requires
            i < 16,
        ensures
            final(self).keys@ == old(self).keys@.update(i as int, false),
    {
        self.keys[i as usize] = false;
    }

    /// Reports whether key `i` is held, leaving the pad as it was.
    pub fn is_key_pressed(&mut self, i: u8) -> (held: bool)
        requires
            i < 16,
        ensures
            held == old(self).keys@[i as int],
            *final(self) == *old(self),
    {
        self.keys[i as usize]
    }

    /// Finds the lowest key code that is held.
    pub fn first_pressed(&self) -> (found: Option<u8>)
        ensures
            found == lowest_pressed(self.keys@),
            found matches Some(k) ==> is_lowest_pressed(self.keys@, k as int),
            found is None ==> forall|j: int| 0 <= j < 16 ==> !self.keys@[j],
    {
        let mut k: u8 = 0;
        while k < 16
            invariant
                k <= 16,
                forall|j: int| 0 <= j < k ==> !self.keys@[j],
            decreases 16 - k,
        {
            if self.keys[k as usize] {
                assert(is_lowest_pressed(self.keys@, k as int));
                let ghost c = choose|c: int| is_lowest_pressed(self.keys@, c);
                assert(c == k);
                return Some(k);
            }
            k += 1;
        }
        None
    }
}

} // verus!
