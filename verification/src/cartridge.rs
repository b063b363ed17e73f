//! A program image held ready for loading into the machine.

use vstd::prelude::*;
use crate::cpu::{loaded_memory, reset_machine, Machine, CPU};

verus! {

/// The bytes of an image as they are held for loading: the first 3584
/// bytes of `image`, followed by zeros up to 3584 bytes in all.
pub open spec fn fitted(image: Seq<u8>) -> Seq<u8> {
    Seq::new(
        3584,
        |k: int|
            if k < image.len() {
                image[k]
            } else {
                0u8
            },
    )
}

/// A program image of exactly the size of the loadable region.
pub struct CartridgeDriver {
    cartridge: [u8; 3584],
}

impl View for CartridgeDriver {
    type V = Seq<u8>;

    closed spec fn view(&self) -> Seq<u8> {
        self.cartridge@
    }
}

impl CartridgeDriver {
    /// Holds `image` for loading: a shorter image is padded with zeros,
    /// and what lies beyond 3584 bytes is left out.
    pub fn new(image: &[u8]) -> (driver: CartridgeDriver)
        ensures
            driver@ == fitted(image@),
    {
        let mut cartridge = [0u8; 3584];
        let mut k: usize = 0;
        while k < 3584 && k < image.len()
            invariant
                k <= 3584,
                k <= image@.len(),
                forall|j: int| 0 <= j < k ==> cartridge@[j] == image@[j],
                forall|j: int| k <= j < 3584 ==> cartridge@[j] == 0,
            decreases 3584 - k,
        {
            cartridge[k] = image[k];
            k += 1;
        }
        assert(cartridge@ =~= fitted(image@));
        CartridgeDriver { cartridge }
    }

    /// Resets `cpu` and loads the image at the program origin.
    pub fn load(&mut self, cpu: &mut CPU)
        ensures
            final(self)@ == old(self)@,
            final(cpu)@ == (Machine {
                ram: loaded_memory(old(self)@),
                ..reset_machine(old(cpu)@.keys)
            }),
            final(cpu).display.wf(),
    {
        cpu.load_cartridge(self.cartridge.as_slice());
    }
}

} // verus!
