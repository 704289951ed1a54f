//! The trap handler: a sub-dispatch over six system-call codes that
//! perform character I/O against the host console. GETC does not update
//! the condition codes while IN does; that asymmetry is part of the
//! machine's observable contract and is kept as it is.

use vstd::prelude::*;

use crate::bits::{
    high_byte, lemma_wrap_off_snoc, lemma_wrap_off_step, low_byte, safe_u16_add, wrap_add,
    wrap_off,
};
use crate::flags::{flag_of, get_cond_flag};
use crate::host;
use crate::memory::{read_rel, Memory, MEMORY_SIZE};
use crate::vm::{state_eq, Vm};

verus! {

/// The six defined trap vectors, found in the low 8 bits of a TRAP
/// instruction. Any other vector is fatal.
#[derive(Clone, Copy, Debug, PartialEq, Eq, Structural)]
pub enum TrapCode {
    GETC,
    OUT,
    PUTS,
    IN,
    PUTSP,
    HALT,
}

/// What the execution of one instruction asks of the machine's driver:
/// carry on, or stop the run for the stated reason. Every stop is fatal to
/// the process; there is no recoverable error class inside the
/// instruction semantics.
#[derive(Clone, Copy, Debug, PartialEq, Eq, Structural)]
pub enum Signal {
    Continue,
    Halted,
    ReservedOpcode,
    UnknownTrap,
}

/// The trap code encoded in the low 8 bits of `instr`, if it is one of the
/// six defined vectors.
pub open spec fn trap_code_of(instr: u16) -> Option<TrapCode> {
    let vector = instr & 0xFF;
    if vector == 0x20 {
        Some(TrapCode::GETC)
    } else if vector == 0x21 {
        Some(TrapCode::OUT)
    } else if vector == 0x22 {
        Some(TrapCode::PUTS)
    } else if vector == 0x23 {
        Some(TrapCode::IN)
    } else if vector == 0x24 {
        Some(TrapCode::PUTSP)
    } else if vector == 0x25 {
        Some(TrapCode::HALT)
    } else {
        None
    }
}

/// Decodes the low 8 bits of a TRAP instruction.
pub fn get_trap_code(instr: u16) -> (r: Option<TrapCode>)
    ensures
        r == trap_code_of(instr),
{
    let vector = instr & 0xFF;
    if vector == 0x20 {
        Some(TrapCode::GETC)
    } else if vector == 0x21 {
        Some(TrapCode::OUT)
    } else if vector == 0x22 {
        Some(TrapCode::PUTS)
    } else if vector == 0x23 {
        Some(TrapCode::IN)
    } else if vector == 0x24 {
        Some(TrapCode::PUTSP)
    } else if vector == 0x25 {
        Some(TrapCode::HALT)
    } else {
        None
    }
}

// ---------------------------------------------------------------------
// The string walk of PUTS and PUTSP.
// ---------------------------------------------------------------------
/// A walk of the string at `a` in memory `m0`: the nonzero words `ws` are
/// read one per address through the memory-mapped path — each read may
/// move the keyboard device words — leaving memory `m1`. With `ended`,
/// the walk closed with one more read that returned the zero terminator;
/// without it, the walk stopped short of one.
pub open spec fn string_walk(m0: Seq<u16>, a: u16, ws: Seq<u16>, m1: Seq<u16>, ended: bool) -> bool
    decreases ws.len(),
{
    if ws.len() == 0 {
        if ended {
            read_rel(m0, a, 0, m1)
        } else {
            m1 == m0
        }
    } else {
        ws[0] != 0 && (exists|m: Seq<u16>|
            #[trigger] read_rel(m0, a, ws[0], m) && string_walk(m, wrap_add(a, 1), ws.skip(1), m1, ended))
    }
}

/// An unended walk grows at its end by one more nonzero read.
proof fn lemma_walk_snoc(m0: Seq<u16>, a: u16, ws: Seq<u16>, m1: Seq<u16>, w: u16, m2: Seq<u16>)
    requires
        string_walk(m0, a, ws, m1, false),
        read_rel(m1, wrap_off(a, ws.len() as int), w, m2),
        w != 0,
    ensures
        string_walk(m0, a, ws.push(w), m2, false),
    decreases ws.len(),
{
    if ws.len() == 0 {
        assert(wrap_off(a, 0) == a);
        assert(ws.push(w)[0] == w);
        assert(ws.push(w).skip(1) =~= Seq::<u16>::empty());
        assert(read_rel(m0, a, w, m2));
        assert(string_walk(m2, wrap_add(a, 1), ws.push(w).skip(1), m2, false));
    } else {
        let m = choose|m: Seq<u16>|
            #[trigger] read_rel(m0, a, ws[0], m) && string_walk(
                m,
                wrap_add(a, 1),
                ws.skip(1),
                m1,
                false,
            );
        lemma_wrap_off_step(a, ws.len() as int);
        lemma_walk_snoc(m, wrap_add(a, 1), ws.skip(1), m1, w, m2);
        assert(ws.push(w).skip(1) =~= ws.skip(1).push(w));
        assert(ws.push(w)[0] == ws[0]);
        assert(read_rel(m0, a, ws.push(w)[0], m));
    }
}

/// An unended walk closes once a read at the next address returns zero.
proof fn lemma_walk_end(m0: Seq<u16>, a: u16, ws: Seq<u16>, m1: Seq<u16>, m2: Seq<u16>)
    requires
        string_walk(m0, a, ws, m1, false),
        read_rel(m1, wrap_off(a, ws.len() as int), 0, m2),
    ensures
        string_walk(m0, a, ws, m2, true),
    decreases ws.len(),
{
    if ws.len() == 0 {
        assert(wrap_off(a, 0) == a);
    } else {
        let m = choose|m: Seq<u16>|
            #[trigger] read_rel(m0, a, ws[0], m) && string_walk(
                m,
                wrap_add(a, 1),
                ws.skip(1),
                m1,
                false,
            );
        lemma_wrap_off_step(a, ws.len() as int);
        lemma_walk_end(m, wrap_add(a, 1), ws.skip(1), m1, m2);
        assert(read_rel(m0, a, ws[0], m));
    }
}

/// Walks the string at `start`: one word per address through the
/// memory-mapped read path, collecting the nonzero words up to the first
/// zero word, exclusive. A walk that meets no zero word is given up after
/// one pass over the whole address space.
pub fn collect_string(mem: &mut Memory, start: u16) -> (ws: Vec<u16>)
    requires
        old(mem).wf(),
    ensures
        final(mem).wf(),
        ws@.len() <= MEMORY_SIZE,
        exists|ended: bool|
            #[trigger] string_walk(old(mem)@, start, ws@, final(mem)@, ended) && (!ended
                ==> ws@.len() == MEMORY_SIZE),
{
    let mut ws: Vec<u16> = Vec::new();
    let mut addr = start;
    let mut fuel: usize = MEMORY_SIZE;
    let mut running = true;
    while running && fuel > 0
        invariant
            mem.wf(),
            ws@.len() <= MEMORY_SIZE,
            running ==> addr == wrap_off(start, ws@.len() as int),
            running ==> ws@.len() + fuel == MEMORY_SIZE,
            running ==> string_walk(old(mem)@, start, ws@, mem@, false),
            !running ==> string_walk(old(mem)@, start, ws@, mem@, true),
        decreases fuel, (if running {
            1int
        } else {
            0int
        }),
    {
        let ghost before = mem@;
        let value = mem.read(addr);
        if value == 0 {
            proof {
                lemma_walk_end(old(mem)@, start, ws@, before, mem@);
            }
            running = false;
        } else {
            proof {
                lemma_walk_snoc(old(mem)@, start, ws@, before, value, mem@);
                lemma_wrap_off_snoc(start, ws@.len() as int);
            }
            ws.push(value);
            addr = safe_u16_add(addr, 1);
            fuel = fuel - 1;
        }
    }
    ws
}

// ---------------------------------------------------------------------
// What the printing traps hand to the console.
// ---------------------------------------------------------------------
/// The characters PUTS owes the console: each word's low byte, in order.
pub open spec fn low_bytes(ws: Seq<u16>) -> Seq<u8> {
    ws.map_values(|w: u16| (w & 0xFF) as u8)
}

/// The characters one word contributes under PUTSP: its low byte, then
/// its high byte — unless the high byte is zero, which suppresses the
/// word's second character.
pub open spec fn word_chars(w: u16) -> Seq<u8> {
    if w >> 8 == 0 {
        seq![(w & 0xFF) as u8]
    } else {
        seq![(w & 0xFF) as u8, (w >> 8) as u8]
    }
}

/// The characters PUTSP owes the console: up to two per word, low byte
/// first.
pub open spec fn packed_bytes(ws: Seq<u16>) -> Seq<u8>
    decreases ws.len(),
{
    if ws.len() == 0 {
        Seq::empty()
    } else {
        packed_bytes(ws.drop_last()) + word_chars(ws.last())
    }
}

/// Converts a collected string to the characters PUTS prints.
pub fn puts_output(ws: &Vec<u16>) -> (bs: Vec<u8>)
    ensures
        bs@ == low_bytes(ws@),
{
    let mut bs: Vec<u8> = Vec::new();
    let mut i: usize = 0;
    while i < ws.len()
        invariant
            i <= ws@.len(),
            bs@ == low_bytes(ws@.take(i as int)),
        decreases ws@.len() - i,
    {
        bs.push(low_byte(ws[i]));
        proof {
            assert(low_bytes(ws@.take((i + 1) as int)) =~= low_bytes(ws@.take(i as int)).push(
                (ws@[i as int] & 0xFF) as u8,
            ));
        }
        i = i + 1;
    }
    proof {
        assert(ws@.take(ws@.len() as int) =~= ws@);
    }
    bs
}

/// Converts a collected string to the characters PUTSP prints.
pub fn putsp_output(ws: &Vec<u16>) -> (bs: Vec<u8>)
    ensures
        bs@ == packed_bytes(ws@),
{
    let mut bs: Vec<u8> = Vec::new();
    let mut i: usize = 0;
    while i < ws.len()
        invariant
            i <= ws@.len(),
            bs@ == packed_bytes(ws@.take(i as int)),
        decreases ws@.len() - i,
    {
        let w = ws[i];
        bs.push(low_byte(w));
        let high = high_byte(w);
        if high != 0 {
            bs.push(high);
        }
        proof {
            assert(ws@.take((i + 1) as int).drop_last() =~= ws@.take(i as int));
            assert(ws@.take((i + 1) as int).last() == ws@[i as int]);
            assert(bs@ =~= packed_bytes(ws@.take(i as int)) + word_chars(ws@[i as int]));
        }
        i = i + 1;
    }
    proof {
        assert(ws@.take(ws@.len() as int) =~= ws@);
    }
    bs
}

/// Hands each byte of a prepared output, in order, to the console.
fn write_bytes(bs: &Vec<u8>) {
    let mut i: usize = 0;
    while i < bs.len()
        decreases bs@.len() - i,
    {
        host::write_byte(bs[i]);
        i = i + 1;
    }
}

// ---------------------------------------------------------------------
// What each trap does to the machine.
// ---------------------------------------------------------------------
/// GETC: register 0 takes some byte read from the host; the condition
/// codes and everything else stay put.
pub open spec fn getc_post(pre: Vm, post: Vm) -> bool {
    exists|b: u8|
        post.register.regs() == pre.register.regs().update(0, #[trigger] (b as u16))
            && post.register.pc == pre.register.pc && post.register.cond == pre.register.cond
            && post.memory@ == pre.memory@
}

/// IN: register 0 takes some byte read from the host and the condition
/// register takes that byte's sign; everything else stays put.
pub open spec fn in_post(pre: Vm, post: Vm) -> bool {
    exists|b: u8|
        post.register.regs() == pre.register.regs().update(0, #[trigger] (b as u16))
            && post.register.pc == pre.register.pc && post.register.cond == flag_of(b as u16)
            && post.memory@ == pre.memory@
}

/// A string-printing trap: the registers stay put, and the memory is
/// exactly what a walk of the string from register 0 left behind — the
/// walk reads word by word up to the zero terminator, and a read that
/// touches the keyboard status address polls the host like any other.
pub open spec fn print_post(pre: Vm, post: Vm) -> bool {
    post.register == pre.register && (exists|ws: Seq<u16>, ended: bool|
        #[trigger] string_walk(pre.memory@, pre.register.r0, ws, post.memory@, ended) && (!ended
            ==> ws.len() == MEMORY_SIZE))
}

/// What a TRAP instruction does, by its vector: the six defined vectors
/// perform their console call and ask the driver to carry on — except
/// HALT, which stops the run — and any other vector stops the run as an
/// unknown trap, leaving the machine untouched.
pub open spec fn trap_post(pre: Vm, post: Vm, instr: u16, r: Signal) -> bool {
    match trap_code_of(instr) {
        Some(TrapCode::GETC) => r == Signal::Continue && getc_post(pre, post),
        Some(TrapCode::OUT) => r == Signal::Continue && state_eq(pre, post),
        Some(TrapCode::PUTS) => r == Signal::Continue && print_post(pre, post),
        Some(TrapCode::IN) => r == Signal::Continue && in_post(pre, post),
        Some(TrapCode::PUTSP) => r == Signal::Continue && print_post(pre, post),
        Some(TrapCode::HALT) => r == Signal::Halted && state_eq(pre, post),
        None => r == Signal::UnknownTrap && state_eq(pre, post),
    }
}

/// Blocking-reads one byte from the host into register 0. No echo, and —
/// unlike IN — no condition-code update.
pub fn getc(vm: &mut Vm)
    requires
        old(vm).wf(),
    ensures
        final(vm).wf(),
        getc_post(*old(vm), *final(vm)),
{
    let b = host::read_byte();
    vm.register.update(0, b as u16);
}

/// Writes one character to the host console — the low byte of register 0,
/// fixed by `low_byte`'s contract — and flushes. The machine itself is
/// left completely unchanged.
pub fn out(vm: &mut Vm)
    requires
        old(vm).wf(),
    ensures
        final(vm).wf(),
        state_eq(*old(vm), *final(vm)),
{
    let b = low_byte(vm.register.r0);
    host::write_byte(b);
    host::flush();
}

/// PUTS: collects the string at register 0 — one character per memory
/// word, until a zero word, exclusive — converts it to its low bytes and
/// writes them, then flushes once.
pub fn puts(vm: &mut Vm)
    requires
        old(vm).wf(),
    ensures
        final(vm).wf(),
        print_post(*old(vm), *final(vm)),
{
    let start = vm.register.r0;
    let ws = collect_string(&mut vm.memory, start);
    proof {
        let ended = choose|e: bool|
            #[trigger] string_walk(old(vm).memory@, start, ws@, vm.memory@, e) && (!e
                ==> ws@.len() == MEMORY_SIZE);
        assert(string_walk(old(vm).memory@, old(vm).register.r0, ws@, vm.memory@, ended));
    }
    let bs = puts_output(&ws);
    write_bytes(&bs);
    host::flush();
}

/// PUTSP: like PUTS but each word packs two characters, low byte first; a
/// zero high byte in an otherwise nonzero word suppresses that word's
/// second character; the walk stops at the first zero word, exclusive,
/// and flushes once.
pub fn putsp(vm: &mut Vm)
    requires
        old(vm).wf(),
    ensures
        final(vm).wf(),
        print_post(*old(vm), *final(vm)),
{
    let start = vm.register.r0;
    let ws = collect_string(&mut vm.memory, start);
    proof {
        let ended = choose|e: bool|
            #[trigger] string_walk(old(vm).memory@, start, ws@, vm.memory@, e) && (!e
                ==> ws@.len() == MEMORY_SIZE);
        assert(string_walk(old(vm).memory@, old(vm).register.r0, ws@, vm.memory@, ended));
    }
    let bs = putsp_output(&ws);
    write_bytes(&bs);
    host::flush();
}

/// IN: prints a prompt, blocking-reads one byte, echoes it, stores it in
/// register 0 and — unlike GETC — sets the condition codes from it.
pub fn trap_in(vm: &mut Vm)
    requires
        old(vm).wf(),
    ensures
        final(vm).wf(),
        in_post(*old(vm), *final(vm)),
{
    host::write_text("Enter a  character : ");
    host::flush();
    let b = host::read_byte();
    host::write_byte(b);
    host::flush();
    vm.register.update(0, b as u16);
    vm.register.cond = get_cond_flag(b as u16);
}

/// HALT: prints the halt notice, flushes, and asks the driver to stop the
/// run.
pub fn halt() -> (r: Signal)
    ensures
        r == Signal::Halted,
{
    host::write_line("HALT detected");
    host::flush();
    Signal::Halted
}

/// Dispatches a TRAP instruction by the vector in its low 8 bits. An
/// unrecognized vector stops the run; the machine state is left untouched.
pub fn trap(instr: u16, vm: &mut Vm) -> (r: Signal)
    requires
        old(vm).wf(),
    ensures
        final(vm).wf(),
        trap_post(*old(vm), *final(vm), instr, r),
{
    match get_trap_code(instr) {
        Some(TrapCode::GETC) => {
            getc(vm);
            Signal::Continue
        },
        Some(TrapCode::OUT) => {
            out(vm);
            Signal::Continue
        },
        Some(TrapCode::PUTS) => {
            puts(vm);
            Signal::Continue
        },
        Some(TrapCode::IN) => {
            trap_in(vm);
            Signal::Continue
        },
        Some(TrapCode::PUTSP) => {
            putsp(vm);
            Signal::Continue
        },
        Some(TrapCode::HALT) => halt(),
        None => Signal::UnknownTrap,
    }
}

} // verus!
