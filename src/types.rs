//! A register file addressed by register number.

use vstd::prelude::*;
use crate::machine::REGISTER_SIZE;

verus! {

/// Sixteen byte registers.
#[derive(Debug)]
pub struct Registers(pub [u8; REGISTER_SIZE]);

impl Registers {
    /// The register numbered `index`.
    pub fn index(&self, index: u8) -> (r: &u8)
        requires
            index < 16,
        ensures
            *r == self.0@[index as int],
    {
        &self.0[index as usize]
    }

    /// The register numbered `index`, given as a 16-bit value.
    pub fn index_u16(&self, index: u16) -> (r: &u8)
        requires
            index < 16,
        ensures
            *r == self.0@[index as int],
    {
        &self.0[index as usize]
    }

    /// The register numbered `index`, to be written.
    pub fn index_mut(&mut self, index: u8) -> (r: &mut u8)
        requires
            index < 16,
        ensures
            *r == old(self).0@[index as int],
            final(self).0@ == old(self).0@.update(index as int, *final(r)),
    {
        &mut self.0[index as usize]
    }
}

} // verus!
