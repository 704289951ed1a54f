//! The register bank: eight 16-bit general-purpose slots, the program
//! counter and the condition register. Created zero-initialized and mutated
//! only by instruction execution.

use vstd::prelude::*;

verus! {

#[derive(Clone, Copy, Debug, PartialEq, Eq, Structural)]
pub struct Register {
    pub r0: u16,
    pub r1: u16,
    pub r2: u16,
    pub r3: u16,
    pub r4: u16,
    pub r5: u16,
    pub r6: u16,
    pub r7: u16,
    pub pc: u16,
    pub cond: u16,
}

impl Register {
    /// The eight general-purpose slots as a sequence, indexed 0 to 7.
    pub open spec fn regs(self) -> Seq<u16> {
        seq![self.r0, self.r1, self.r2, self.r3, self.r4, self.r5, self.r6, self.r7]
    }

    /// A zero-initialized bank, as at machine start.
    pub fn new() -> (r: Register)
        ensures
            r.regs() == seq![0u16, 0u16, 0u16, 0u16, 0u16, 0u16, 0u16, 0u16],
            r.pc == 0,
            r.cond == 0,
    {
        Register { r0: 0, r1: 0, r2: 0, r3: 0, r4: 0, r5: 0, r6: 0, r7: 0, pc: 0, cond: 0 }
    }

    /// The value of general register `index`. The index always comes from a
    /// 3-bit instruction field, so it is always in range.
    pub fn get(&self, index: u16) -> (r: u16)
        requires
            index < 8,
        ensures
            r == self.regs()[index as int],
    {
        if index == 0 {
            self.r0
        } else if index == 1 {
            self.r1
        } else if index == 2 {
            self.r2
        } else if index == 3 {
            self.r3
        } else if index == 4 {
            self.r4
        } else if index == 5 {
            self.r5
        } else if index == 6 {
            self.r6
        } else {
            self.r7
        }
    }

    /// Overwrites general register `index` with `value`; the other slots,
    /// the program counter and the condition register keep their values.
    pub fn update(&mut self, index: u16, value: u16)
        requires
            index < 8,
        ensures
            final(self).regs() == old(self).regs().update(index as int, value),
            final(self).pc == old(self).pc,
            final(self).cond == old(self).cond,
    {
        if index == 0 {
            self.r0 = value;
        } else if index == 1 {
            self.r1 = value;
        } else if index == 2 {
            self.r2 = value;
        } else if index == 3 {
            self.r3 = value;
        } else if index == 4 {
            self.r4 = value;
        } else if index == 5 {
            self.r5 = value;
        } else if index == 6 {
            self.r6 = value;
        } else {
            self.r7 = value;
        }
        proof {
            assert(self.regs() =~= old(self).regs().update(index as int, value));
        }
    }
}

} // verus!
