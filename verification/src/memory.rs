//! The memory: 65536 addressable 16-bit words, zero-initialized. Two
//! addresses belong to the keyboard device: reading the status address
//! consumes one byte from the host and rewrites the status and data words
//! before the value is returned.

use vstd::prelude::*;

verus! {

/// Number of addressable words; every 16-bit address is in range.
pub const MEMORY_SIZE: usize = 65536;

/// Keyboard status address: reading it polls the host keyboard.
pub const KEYBOARD_STATUS: u16 = 0xFE00;

/// Keyboard data address: filled with the byte the poll consumed.
pub const KEYBOARD_DATA: u16 = 0xFE02;

pub struct Memory {
    data: Vec<u16>,
}

impl View for Memory {
    type V = Seq<u16>;

    closed spec fn view(&self) -> Seq<u16> {
        self.data@
    }
}

/// What one keyboard poll does to memory when the host hands over byte
/// `b`: a nonzero byte sets bit 15 of the status word and stores the byte
/// in the data word; a zero byte clears the status word.
pub open spec fn kb_spec(m: Seq<u16>, b: u8) -> Seq<u16> {
    if b != 0 {
        m.update(KEYBOARD_STATUS as int, 0x8000u16).update(KEYBOARD_DATA as int, b as u16)
    } else {
        m.update(KEYBOARD_STATUS as int, 0u16)
    }
}

/// How a read at `addr` relates the memory before (`m0`) to the memory
/// after (`m1`) and the value returned (`r`): away from the keyboard
/// status address nothing moves and the stored word comes back; at the
/// status address some consumed byte rewrote the device words first.
pub open spec fn read_rel(m0: Seq<u16>, addr: u16, r: u16, m1: Seq<u16>) -> bool {
    if addr == KEYBOARD_STATUS {
        exists|b: u8| m1 == #[trigger] kb_spec(m0, b) && r == m1[addr as int]
    } else {
        m1 == m0 && r == m0[addr as int]
    }
}

/// The two memories agree everywhere away from the keyboard device words.
pub open spec fn same_but_keyboard(m0: Seq<u16>, m1: Seq<u16>) -> bool {
    m1.len() == m0.len() && forall|a: int|
        0 <= a < m0.len() && a != KEYBOARD_STATUS && a != KEYBOARD_DATA ==> m1[a] == m0[a]
}

/// A read moves memory only at the keyboard device words, whatever the
/// address read.
pub proof fn lemma_read_same_but_keyboard(m0: Seq<u16>, addr: u16, r: u16, m1: Seq<u16>)
    requires
        m0.len() == MEMORY_SIZE,
        read_rel(m0, addr, r, m1),
    ensures
        same_but_keyboard(m0, m1),
{
    if addr == KEYBOARD_STATUS {
        let b = choose|b: u8| m1 == #[trigger] kb_spec(m0, b) && r == m1[addr as int];
        assert(m1 == kb_spec(m0, b));
        assert forall|a: int|
            0 <= a < m0.len() && a != KEYBOARD_STATUS && a != KEYBOARD_DATA implies m1[a] == m0[a]
        by {
            assert(m1[a] == m0[a]);
        }
    }
}

/// Agreement away from the keyboard words carries across two steps.
pub proof fn lemma_same_but_keyboard_trans(m0: Seq<u16>, m1: Seq<u16>, m2: Seq<u16>)
    requires
        same_but_keyboard(m0, m1),
        same_but_keyboard(m1, m2),
    ensures
        same_but_keyboard(m0, m2),
{
}

impl Memory {
    /// Every address is backed by a word.
    pub open spec fn wf(&self) -> bool {
        self@.len() == MEMORY_SIZE
    }

    /// A zero-initialized memory.
    pub fn new() -> (r: Memory)
        ensures
            r.wf(),
            forall|a: int| 0 <= a < MEMORY_SIZE ==> r@[a] == 0,
    {
        let mut data: Vec<u16> = Vec::new();
        let mut i: usize = 0;
        while i < MEMORY_SIZE
            invariant
                i <= MEMORY_SIZE,
                data@.len() == i,
                forall|a: int| 0 <= a < i ==> data@[a] == 0,
            decreases MEMORY_SIZE - i,
        {
            data.push(0);
            i = i + 1;
        }
        Memory { data }
    }

    /// Polls the host keyboard: blocks for one byte and rewrites the two
    /// device words with what arrived.
    fn handle_keyboard(&mut self)
        requires
            old(self).wf(),
        ensures
            final(self).wf(),
            exists|b: u8| final(self)@ == #[trigger] kb_spec(old(self)@, b),
    {
        let b = crate::host::read_byte();
        if b != 0 {
            self.data[KEYBOARD_STATUS as usize] = 0x8000;
            self.data[KEYBOARD_DATA as usize] = b as u16;
        } else {
            self.data[KEYBOARD_STATUS as usize] = 0;
        }
        proof {
            assert(self@ == kb_spec(old(self)@, b));
        }
    }

    /// Returns the word at `addr`. A read of the keyboard status address
    /// first consumes one blocking byte from the host and rewrites the
    /// device words, whatever purpose the read serves; every other address
    /// leaves memory untouched.
    pub fn read(&mut self, addr: u16) -> (r: u16)
        requires
            old(self).wf(),
        ensures
            final(self).wf(),
            read_rel(old(self)@, addr, r, final(self)@),
    {
        if addr == KEYBOARD_STATUS {
            self.handle_keyboard();
        }
        self.data[addr as usize]
    }

    /// Overwrites the word at `addr` unconditionally.
    pub fn write(&mut self, addr: u16, value: u16)
        requires
            old(self).wf(),
        ensures
            final(self).wf(),
            final(self)@ == old(self)@.update(addr as int, value),
    {
        self.data[addr as usize] = value;
    }
}

/// The keyboard law: each poll's status word reflects exactly the one byte
/// that the poll consumed — zero when the byte was zero, bit 15 set when it
/// was not — the data word holds the last nonzero byte, and no address away
/// from the two device words ever moves. Two polls in a row therefore give
/// one status transition per byte consumed, with no residue from the first.
pub proof fn lemma_keyboard_poll(m: Seq<u16>, b1: u8, b2: u8)
    requires
        m.len() == MEMORY_SIZE,
    ensures
        kb_spec(m, b1)[KEYBOARD_STATUS as int] == if b1 == 0 { 0u16 } else { 0x8000u16 },
        kb_spec(kb_spec(m, b1), b2)[KEYBOARD_STATUS as int] == if b2 == 0 {
            0u16
        } else {
            0x8000u16
        },
        b1 != 0 ==> kb_spec(m, b1)[KEYBOARD_DATA as int] == b1 as u16,
        b2 != 0 ==> kb_spec(kb_spec(m, b1), b2)[KEYBOARD_DATA as int] == b2 as u16,
        b2 == 0 && b1 != 0 ==> kb_spec(kb_spec(m, b1), b2)[KEYBOARD_DATA as int] == b1 as u16,
        forall|a: int|
            0 <= a < MEMORY_SIZE && a != KEYBOARD_STATUS && a != KEYBOARD_DATA ==> kb_spec(
                kb_spec(m, b1),
                b2,
            )[a] == m[a],
{
}

/// Two reads of the keyboard status address in a row, with no other
/// access in between: each read hands back the status word it just wrote —
/// zero when the byte that read consumed was zero, bit 15 alone set when
/// it was not — and nothing away from the device words moves.
pub proof fn lemma_keyboard_status_reads(
    m0: Seq<u16>,
    r1: u16,
    m1: Seq<u16>,
    r2: u16,
    m2: Seq<u16>,
)
    requires
        m0.len() == MEMORY_SIZE,
        read_rel(m0, KEYBOARD_STATUS, r1, m1),
        read_rel(m1, KEYBOARD_STATUS, r2, m2),
    ensures
        r1 == 0 || r1 == 0x8000,
        r2 == 0 || r2 == 0x8000,
        r1 == m1[KEYBOARD_STATUS as int],
        r2 == m2[KEYBOARD_STATUS as int],
        r1 == 0x8000 ==> m1[KEYBOARD_DATA as int] != 0,
        r2 == 0x8000 ==> m2[KEYBOARD_DATA as int] != 0,
        same_but_keyboard(m0, m2),
{
    let b1 = choose|b: u8| m1 == #[trigger] kb_spec(m0, b) && r1 == m1[KEYBOARD_STATUS as int];
    let b2 = choose|b: u8| m2 == #[trigger] kb_spec(m1, b) && r2 == m2[KEYBOARD_STATUS as int];
    assert(m1 == kb_spec(m0, b1));
    assert(m2 == kb_spec(m1, b2));
    lemma_read_same_but_keyboard(m0, KEYBOARD_STATUS, r1, m1);
    lemma_read_same_but_keyboard(m1, KEYBOARD_STATUS, r2, m2);
    lemma_same_but_keyboard_trans(m0, m1, m2);
}

} // verus!
