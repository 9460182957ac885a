//! The sixteen general-purpose 8-bit registers.
//!
//! Register `0xF` doubles as the flags output of the arithmetic, shift and
//! draw instructions; the index register and the program counter live in the
//! interpreter core, not here.

use vstd::prelude::*;

verus! {

/// The general-purpose register file, `V0` through `VF`.
#[derive(Debug, Clone)]
pub struct ChipRegisters {
    regs: Vec<u8>,
}

impl View for ChipRegisters {
    type V = Seq<u8>;

    closed spec fn view(&self) -> Seq<u8> {
        self.regs@
    }
}

impl ChipRegisters {
    /// The one shape the file ever has: exactly sixteen registers.
    pub open spec fn wf(&self) -> bool {
        self@.len() == 16
    }

    /// A fresh file, all registers zero.
    pub fn new() -> (r: Self)
        ensures
            r.wf(),
            r@ == Seq::new(16, |i: int| 0u8),
    {
        let mut regs: Vec<u8> = Vec::new();
        let mut j: usize = 0;
        while j < 16
            invariant
                j <= 16,
                regs@.len() == j,
                forall|k: int| 0 <= k < j ==> regs@[k] == 0u8,
            decreases 16 - j,
        {
            regs.push(0u8);
            j += 1;
        }
        let r = ChipRegisters { regs };
        proof {
            assert(r@ =~= Seq::new(16, |i: int| 0u8));
        }
        r
    }

    /// Zeroes every register.
    pub fn clear(&mut self)
        requires
            old(self).wf(),
        ensures
            final(self).wf(),
            final(self)@ == Seq::new(16, |i: int| 0u8),
    {
        let mut j: usize = 0;
        while j < 16
            invariant
                old(self).wf(),
                self.wf(),
                j <= 16,
                forall|k: int| 0 <= k < j ==> self@[k] == 0u8,
            decreases 16 - j,
        {
            self.regs.set(j, 0u8);
            j += 1;
        }
        proof {
            assert(self@ =~= Seq::new(16, |i: int| 0u8));
        }
    }

    /// The value of register `i`.
    pub fn get(&self, i: u8) -> (r: u8)
        requires
            self.wf(),
            i < 16,
        ensures
            r == self@[i as int],
    {
        self.regs[i as usize]
    }

    /// Replaces the value of register `i`.
    pub fn set(&mut self, i: u8, v: u8)
        requires
            old(self).wf(),
            i < 16,
        ensures
            final(self).wf(),
            final(self)@ == old(self)@.update(i as int, v),
    {
        self.regs.set(i as usize, v);
    }

    /// All sixteen registers, `V0` first.
    pub fn as_slice(&self) -> (r: &[u8])
        ensures
            r@ == self@,
    {
        self.regs.as_slice()
    }
}

} // verus!
