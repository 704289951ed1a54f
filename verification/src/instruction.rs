//! The sixteen instruction semantics. Fields are named by bit position,
//! most significant bit 15; every register index field is 3 bits wide, so
//! no bounds checking is ever needed, and every address computation wraps
//! modulo the address space.

use vstd::prelude::*;

use crate::bits::{lemma_mask_bound, safe_u16_add, sext, sign_extend, wrap_add};
use crate::flags::{flag_of, get_cond_flag};
use crate::memory::read_rel;
use crate::trap::{trap, trap_post, Signal};
use crate::vm::{state_eq, Vm};

verus! {

// ---------------------------------------------------------------------
// Instruction fields.
// ---------------------------------------------------------------------
/// Destination register, bits 11:9 (also the source register of the store
/// instructions and the tested-condition mask of a branch).
pub open spec fn dr_of(instr: u16) -> u16 {
    (instr >> 9) & 0x7
}

/// First source register, bits 8:6 (also the base register).
pub open spec fn sr1_of(instr: u16) -> u16 {
    (instr >> 6) & 0x7
}

/// Second source register, bits 2:0.
pub open spec fn sr2_of(instr: u16) -> u16 {
    instr & 0x7
}

/// Mode bit 5: set selects the immediate operand.
pub open spec fn imm_mode(instr: u16) -> bool {
    (instr >> 5) & 0x1 == 1
}

/// The sign-extended 5-bit immediate, bits 4:0.
pub open spec fn imm5_of(instr: u16) -> u16 {
    sext(instr & 0x1F, 5)
}

/// The sign-extended 6-bit offset, bits 5:0.
pub open spec fn off6_of(instr: u16) -> u16 {
    sext(instr & 0x3F, 6)
}

/// The sign-extended 9-bit program-counter displacement, bits 8:0.
pub open spec fn off9_of(instr: u16) -> u16 {
    sext(instr & 0x1FF, 9)
}

/// The sign-extended 11-bit subroutine displacement, bits 10:0.
pub open spec fn off11_of(instr: u16) -> u16 {
    sext(instr & 0x7FF, 11)
}

/// Long flag, bit 11: set selects the displacement form of JSR.
pub open spec fn long_flag(instr: u16) -> bool {
    (instr >> 11) & 0x1 == 1
}

// ---------------------------------------------------------------------
// Opcodes.
// ---------------------------------------------------------------------
/// The 4-bit operation selector in the top nibble of an instruction word.
/// All sixteen values are defined; RTI and RES are reserved and executing
/// either is fatal.
#[derive(Clone, Copy, Debug, PartialEq, Eq, Structural)]
pub enum OpCode {
    BR,
    ADD,
    LD,
    ST,
    JSR,
    AND,
    LDR,
    STR,
    RTI,
    NOT,
    LDI,
    STI,
    JMP,
    RES,
    LEA,
    TRAP,
}

/// The opcode encoded in the top 4 bits of `instr`.
pub open spec fn op_of(instr: u16) -> OpCode {
    let code = instr >> 12;
    if code == 0 {
        OpCode::BR
    } else if code == 1 {
        OpCode::ADD
    } else if code == 2 {
        OpCode::LD
    } else if code == 3 {
        OpCode::ST
    } else if code == 4 {
        OpCode::JSR
    } else if code == 5 {
        OpCode::AND
    } else if code == 6 {
        OpCode::LDR
    } else if code == 7 {
        OpCode::STR
    } else if code == 8 {
        OpCode::RTI
    } else if code == 9 {
        OpCode::NOT
    } else if code == 10 {
        OpCode::LDI
    } else if code == 11 {
        OpCode::STI
    } else if code == 12 {
        OpCode::JMP
    } else if code == 13 {
        OpCode::RES
    } else if code == 14 {
        OpCode::LEA
    } else {
        OpCode::TRAP
    }
}

/// Decodes the top 4 bits of an instruction word. Every 4-bit value is a
/// defined opcode, so the result is never empty.
pub fn get_op_code(instr: u16) -> (r: Option<OpCode>)
    ensures
        r == Some(op_of(instr)),
{
    let code = instr >> 12;
    proof {
        assert(instr >> 12 < 16) by (bit_vector);
    }
    if code == 0 {
        Some(OpCode::BR)
    } else if code == 1 {
        Some(OpCode::ADD)
    } else if code == 2 {
        Some(OpCode::LD)
    } else if code == 3 {
        Some(OpCode::ST)
    } else if code == 4 {
        Some(OpCode::JSR)
    } else if code == 5 {
        Some(OpCode::AND)
    } else if code == 6 {
        Some(OpCode::LDR)
    } else if code == 7 {
        Some(OpCode::STR)
    } else if code == 8 {
        Some(OpCode::RTI)
    } else if code == 9 {
        Some(OpCode::NOT)
    } else if code == 10 {
        Some(OpCode::LDI)
    } else if code == 11 {
        Some(OpCode::STI)
    } else if code == 12 {
        Some(OpCode::JMP)
    } else if code == 13 {
        Some(OpCode::RES)
    } else if code == 14 {
        Some(OpCode::LEA)
    } else {
        Some(OpCode::TRAP)
    }
}

// ---------------------------------------------------------------------
// What each instruction does, as a relation between the machine state
// before and the machine state after.
// ---------------------------------------------------------------------
/// A data-producing instruction: the destination register takes `v`, the
/// condition register takes the sign of `v`, and nothing else moves.
pub open spec fn dest_write(pre: Vm, post: Vm, dr: u16, v: u16) -> bool {
    post.memory@ == pre.memory@ && post.register.regs() == pre.register.regs().update(
        dr as int,
        v,
    ) && post.register.pc == pre.register.pc && post.register.cond == flag_of(v)
}

/// The second operand of ADD and AND: a register value or the sign-extended
/// immediate, by the mode bit.
pub open spec fn operand2(pre: Vm, instr: u16) -> u16 {
    if imm_mode(instr) {
        imm5_of(instr)
    } else {
        pre.register.regs()[sr2_of(instr) as int]
    }
}

pub open spec fn add_post(pre: Vm, post: Vm, instr: u16) -> bool {
    dest_write(
        pre,
        post,
        dr_of(instr),
        wrap_add(pre.register.regs()[sr1_of(instr) as int], operand2(pre, instr)),
    )
}

pub open spec fn and_post(pre: Vm, post: Vm, instr: u16) -> bool {
    dest_write(
        pre,
        post,
        dr_of(instr),
        pre.register.regs()[sr1_of(instr) as int] & operand2(pre, instr),
    )
}

pub open spec fn not_post(pre: Vm, post: Vm, instr: u16) -> bool {
    dest_write(pre, post, dr_of(instr), !pre.register.regs()[sr1_of(instr) as int])
}

pub open spec fn br_post(pre: Vm, post: Vm, instr: u16) -> bool {
    post.memory@ == pre.memory@ && post.register.regs() == pre.register.regs()
        && post.register.cond == pre.register.cond && post.register.pc == if pre.register.cond
        & dr_of(instr) != 0 {
        wrap_add(pre.register.pc, off9_of(instr))
    } else {
        pre.register.pc
    }
}

pub open spec fn jmp_post(pre: Vm, post: Vm, instr: u16) -> bool {
    post.memory@ == pre.memory@ && post.register.regs() == pre.register.regs()
        && post.register.cond == pre.register.cond && post.register.pc
        == pre.register.regs()[sr1_of(instr) as int]
}

pub open spec fn jsr_post(pre: Vm, post: Vm, instr: u16) -> bool {
    let linked = pre.register.regs().update(7, pre.register.pc);
    post.memory@ == pre.memory@ && post.register.regs() == linked && post.register.cond
        == pre.register.cond && post.register.pc == if long_flag(instr) {
        wrap_add(pre.register.pc, off11_of(instr))
    } else {
        linked[sr1_of(instr) as int]
    }
}

pub open spec fn ld_post(pre: Vm, post: Vm, instr: u16) -> bool {
    let a = wrap_add(pre.register.pc, off9_of(instr));
    exists|v: u16, m1: Seq<u16>|
        #[trigger] read_rel(pre.memory@, a, v, m1) && post.memory@ == m1
            && post.register.regs() == pre.register.regs().update(dr_of(instr) as int, v)
            && post.register.pc == pre.register.pc && post.register.cond == flag_of(v)
}

pub open spec fn ldr_post(pre: Vm, post: Vm, instr: u16) -> bool {
    let a = wrap_add(pre.register.regs()[sr1_of(instr) as int], off6_of(instr));
    exists|v: u16, m1: Seq<u16>|
        #[trigger] read_rel(pre.memory@, a, v, m1) && post.memory@ == m1
            && post.register.regs() == pre.register.regs().update(dr_of(instr) as int, v)
            && post.register.pc == pre.register.pc && post.register.cond == flag_of(v)
}

pub open spec fn ldi_post(pre: Vm, post: Vm, instr: u16) -> bool {
    let a1 = wrap_add(pre.register.pc, off9_of(instr));
    exists|v1: u16, m1: Seq<u16>, v2: u16, m2: Seq<u16>|
        #[trigger] read_rel(pre.memory@, a1, v1, m1) && #[trigger] read_rel(m1, v1, v2, m2)
            && post.memory@ == m2 && post.register.regs() == pre.register.regs().update(
            dr_of(instr) as int,
            v2,
        ) && post.register.pc == pre.register.pc && post.register.cond == flag_of(v2)
}

pub open spec fn lea_post(pre: Vm, post: Vm, instr: u16) -> bool {
    dest_write(pre, post, dr_of(instr), wrap_add(pre.register.pc, off9_of(instr)))
}

pub open spec fn st_post(pre: Vm, post: Vm, instr: u16) -> bool {
    post.register == pre.register && post.memory@ == pre.memory@.update(
        wrap_add(pre.register.pc, off9_of(instr)) as int,
        pre.register.regs()[dr_of(instr) as int],
    )
}

pub open spec fn str_post(pre: Vm, post: Vm, instr: u16) -> bool {
    post.register == pre.register && post.memory@ == pre.memory@.update(
        wrap_add(pre.register.regs()[sr1_of(instr) as int], off6_of(instr)) as int,
        pre.register.regs()[dr_of(instr) as int],
    )
}

pub open spec fn sti_post(pre: Vm, post: Vm, instr: u16) -> bool {
    let a1 = wrap_add(pre.register.pc, off9_of(instr));
    exists|v1: u16, m1: Seq<u16>|
        #[trigger] read_rel(pre.memory@, a1, v1, m1) && post.register == pre.register
            && post.memory@ == m1.update(v1 as int, pre.register.regs()[dr_of(instr) as int])
}

/// What executing one instruction word does, by its opcode: how the
/// machine state after relates to the machine state before, and which
/// signal the handler gives back. The reserved opcodes RTI and RES stop
/// the run and leave the machine untouched; TRAP answers by its vector.
pub open spec fn step_post(pre: Vm, post: Vm, instr: u16, r: Signal) -> bool {
    match op_of(instr) {
        OpCode::BR => r == Signal::Continue && br_post(pre, post, instr),
        OpCode::ADD => r == Signal::Continue && add_post(pre, post, instr),
        OpCode::LD => r == Signal::Continue && ld_post(pre, post, instr),
        OpCode::ST => r == Signal::Continue && st_post(pre, post, instr),
        OpCode::JSR => r == Signal::Continue && jsr_post(pre, post, instr),
        OpCode::AND => r == Signal::Continue && and_post(pre, post, instr),
        OpCode::LDR => r == Signal::Continue && ldr_post(pre, post, instr),
        OpCode::STR => r == Signal::Continue && str_post(pre, post, instr),
        OpCode::RTI => r == Signal::ReservedOpcode && state_eq(pre, post),
        OpCode::NOT => r == Signal::Continue && not_post(pre, post, instr),
        OpCode::LDI => r == Signal::Continue && ldi_post(pre, post, instr),
        OpCode::STI => r == Signal::Continue && sti_post(pre, post, instr),
        OpCode::JMP => r == Signal::Continue && jmp_post(pre, post, instr),
        OpCode::RES => r == Signal::ReservedOpcode && state_eq(pre, post),
        OpCode::LEA => r == Signal::Continue && lea_post(pre, post, instr),
        OpCode::TRAP => trap_post(pre, post, instr, r),
    }
}

// ---------------------------------------------------------------------
// The instruction handlers.
// ---------------------------------------------------------------------
/// ADD: the destination register takes the first source register plus the
/// second operand (register or sign-extended immediate), with wraparound;
/// the condition register takes the result's sign.
pub fn add(instr: u16, vm: &mut Vm)
    requires
        old(vm).wf(),
    ensures
        final(vm).wf(),
        add_post(*old(vm), *final(vm), instr),
{
    let dr = (instr >> 9) & 0x7;
    let sr1 = (instr >> 6) & 0x7;
    let imm_flag = (instr >> 5) & 0x1;
    proof {
        lemma_mask_bound(instr >> 9, 0x7);
        lemma_mask_bound(instr >> 6, 0x7);
        lemma_mask_bound(instr, 0x7);
    }
    if imm_flag == 1 {
        let imm5 = sign_extend(instr & 0x1F, 5);
        let value = safe_u16_add(vm.register.get(sr1), imm5);
        vm.register.update(dr, value);
        vm.register.cond = get_cond_flag(value);
    } else {
        let sr2 = instr & 0x7;
        let value = safe_u16_add(vm.register.get(sr1), vm.register.get(sr2));
        vm.register.update(dr, value);
        vm.register.cond = get_cond_flag(value);
    }
}

/// AND: like ADD but the destination register takes the bitwise AND of the
/// two operands.
pub fn and(instr: u16, vm: &mut Vm)
    requires
        old(vm).wf(),
    ensures
        final(vm).wf(),
        and_post(*old(vm), *final(vm), instr),
{
    let dr = (instr >> 9) & 0x7;
    let sr1 = (instr >> 6) & 0x7;
    let imm_flag = (instr >> 5) & 0x1;
    proof {
        lemma_mask_bound(instr >> 9, 0x7);
        lemma_mask_bound(instr >> 6, 0x7);
        lemma_mask_bound(instr, 0x7);
    }
    if imm_flag == 1 {
        let imm5 = sign_extend(instr & 0x1F, 5);
        let value = vm.register.get(sr1) & imm5;
        vm.register.update(dr, value);
        vm.register.cond = get_cond_flag(value);
    } else {
        let sr2 = instr & 0x7;
        let value = vm.register.get(sr1) & vm.register.get(sr2);
        vm.register.update(dr, value);
        vm.register.cond = get_cond_flag(value);
    }
}

/// NOT: the destination register takes the bitwise complement of the
/// source register; the condition register takes the result's sign.
pub fn not(instr: u16, vm: &mut Vm)
    requires
        old(vm).wf(),
    ensures
        final(vm).wf(),
        not_post(*old(vm), *final(vm), instr),
{
    let dr = (instr >> 9) & 0x7;
    let sr = (instr >> 6) & 0x7;
    proof {
        lemma_mask_bound(instr >> 9, 0x7);
        lemma_mask_bound(instr >> 6, 0x7);
    }
    let value = !vm.register.get(sr);
    vm.register.update(dr, value);
    vm.register.cond = get_cond_flag(value);
}

/// BR: when the condition register meets the instruction's N/Z/P mask, the
/// program counter moves by the sign-extended 9-bit displacement;
/// otherwise nothing happens.
pub fn br(instr: u16, vm: &mut Vm)
    requires
        old(vm).wf(),
    ensures
        final(vm).wf(),
        br_post(*old(vm), *final(vm), instr),
{
    let cond_flag = (instr >> 9) & 0x7;
    let pc_offset9 = instr & 0x1FF;
    if (vm.register.cond & cond_flag) != 0 {
        vm.register.pc = safe_u16_add(vm.register.pc, sign_extend(pc_offset9, 9));
    }
}

/// JMP: the program counter takes the base register's value. A return from
/// subroutine is the special case with base register 7.
pub fn jmp(instr: u16, vm: &mut Vm)
    requires
        old(vm).wf(),
    ensures
        final(vm).wf(),
        jmp_post(*old(vm), *final(vm), instr),
{
    let base = (instr >> 6) & 0x7;
    proof {
        lemma_mask_bound(instr >> 6, 0x7);
    }
    vm.register.pc = vm.register.get(base);
}

/// JSR: register 7 takes the incremented program counter as the linkage
/// back to the caller; the program counter then moves by the sign-extended
/// 11-bit displacement (long flag set) or takes the base register's value.
pub fn jsr(instr: u16, vm: &mut Vm)
    requires
        old(vm).wf(),
    ensures
        final(vm).wf(),
        jsr_post(*old(vm), *final(vm), instr),
{
    let long = (instr >> 11) & 0x1;
    let pc = vm.register.pc;
    vm.register.update(7, pc);
    if long == 1 {
        let pc_offset11 = instr & 0x7FF;
        vm.register.pc = safe_u16_add(pc, sign_extend(pc_offset11, 11));
    } else {
        let base = (instr >> 6) & 0x7;
        proof {
            lemma_mask_bound(instr >> 6, 0x7);
        }
        vm.register.pc = vm.register.get(base);
    }
}

/// LD: the destination register takes the memory word at the program
/// counter plus the sign-extended 9-bit displacement; the condition
/// register takes the loaded value's sign.
pub fn ld(instr: u16, vm: &mut Vm)
    requires
        old(vm).wf(),
    ensures
        final(vm).wf(),
        ld_post(*old(vm), *final(vm), instr),
{
    let dr = (instr >> 9) & 0x7;
    let pc_offset9 = sign_extend(instr & 0x1FF, 9);
    let addr = safe_u16_add(vm.register.pc, pc_offset9);
    let value = vm.memory.read(addr);
    proof {
        lemma_mask_bound(instr >> 9, 0x7);
    }
    vm.register.update(dr, value);
    vm.register.cond = get_cond_flag(value);
    proof {
        assert(read_rel(
            old(vm).memory@,
            wrap_add(old(vm).register.pc, off9_of(instr)),
            value,
            vm.memory@,
        ));
    }
}

/// LDR: the destination register takes the memory word at the base
/// register plus the sign-extended 6-bit offset; the condition register
/// takes the loaded value's sign.
pub fn ldr(instr: u16, vm: &mut Vm)
    requires
        old(vm).wf(),
    ensures
        final(vm).wf(),
        ldr_post(*old(vm), *final(vm), instr),
{
    let dr = (instr >> 9) & 0x7;
    let base = (instr >> 6) & 0x7;
    let offset6 = sign_extend(instr & 0x3F, 6);
    proof {
        lemma_mask_bound(instr >> 9, 0x7);
        lemma_mask_bound(instr >> 6, 0x7);
    }
    let addr = safe_u16_add(vm.register.get(base), offset6);
    let value = vm.memory.read(addr);
    vm.register.update(dr, value);
    vm.register.cond = get_cond_flag(value);
    proof {
        assert(read_rel(
            old(vm).memory@,
            wrap_add(old(vm).register.regs()[sr1_of(instr) as int], off6_of(instr)),
            value,
            vm.memory@,
        ));
    }
}

/// LDI: the word at the program counter plus the sign-extended 9-bit
/// displacement is itself an address; the destination register takes the
/// word found there, and the condition register its sign.
pub fn ldi(instr: u16, vm: &mut Vm)
    requires
        old(vm).wf(),
    ensures
        final(vm).wf(),
        ldi_post(*old(vm), *final(vm), instr),
{
    let dr = (instr >> 9) & 0x7;
    let pc_offset9 = sign_extend(instr & 0x1FF, 9);
    let first_read_addr = safe_u16_add(vm.register.pc, pc_offset9);
    let addr = vm.memory.read(first_read_addr);
    let ghost mid = vm.memory@;
    let value = vm.memory.read(addr);
    proof {
        lemma_mask_bound(instr >> 9, 0x7);
    }
    vm.register.update(dr, value);
    vm.register.cond = get_cond_flag(value);
    proof {
        assert(read_rel(old(vm).memory@, wrap_add(old(vm).register.pc, off9_of(instr)), addr, mid));
        assert(read_rel(mid, addr, value, vm.memory@));
    }
}

/// LEA: the destination register takes the address formed from the program
/// counter plus the sign-extended 9-bit displacement — the address itself,
/// not the memory word there; the condition register takes its sign.
pub fn lea(instr: u16, vm: &mut Vm)
    requires
        old(vm).wf(),
    ensures
        final(vm).wf(),
        lea_post(*old(vm), *final(vm), instr),
{
    let dr = (instr >> 9) & 0x7;
    let pc_offset9 = sign_extend(instr & 0x1FF, 9);
    proof {
        lemma_mask_bound(instr >> 9, 0x7);
    }
    let value = safe_u16_add(vm.register.pc, pc_offset9);
    vm.register.update(dr, value);
    vm.register.cond = get_cond_flag(value);
}

/// ST: the memory word at the program counter plus the sign-extended 9-bit
/// displacement takes the source register's value; condition codes do not
/// move.
pub fn st(instr: u16, vm: &mut Vm)
    requires
        old(vm).wf(),
    ensures
        final(vm).wf(),
        st_post(*old(vm), *final(vm), instr),
{
    let sr = (instr >> 9) & 0x7;
    let pc_offset9 = sign_extend(instr & 0x1FF, 9);
    proof {
        lemma_mask_bound(instr >> 9, 0x7);
    }
    let value = vm.register.get(sr);
    let addr = safe_u16_add(vm.register.pc, pc_offset9);
    vm.memory.write(addr, value);
}

/// STR: the memory word at the base register plus the sign-extended 6-bit
/// offset takes the source register's value.
pub fn str(instr: u16, vm: &mut Vm)
    requires
        old(vm).wf(),
    ensures
        final(vm).wf(),
        str_post(*old(vm), *final(vm), instr),
{
    let sr = (instr >> 9) & 0x7;
    let base = (instr >> 6) & 0x7;
    let offset6 = sign_extend(instr & 0x3F, 6);
    proof {
        lemma_mask_bound(instr >> 9, 0x7);
        lemma_mask_bound(instr >> 6, 0x7);
    }
    let value = vm.register.get(sr);
    let addr = safe_u16_add(vm.register.get(base), offset6);
    vm.memory.write(addr, value);
}

/// STI: the word at the program counter plus the sign-extended 9-bit
/// displacement is an address; the memory word there takes the source
/// register's value.
pub fn sti(instr: u16, vm: &mut Vm)
    requires
        old(vm).wf(),
    ensures
        final(vm).wf(),
        sti_post(*old(vm), *final(vm), instr),
{
    let sr = (instr >> 9) & 0x7;
    let pc_offset9 = sign_extend(instr & 0x1FF, 9);
    proof {
        lemma_mask_bound(instr >> 9, 0x7);
    }
    let value = vm.register.get(sr);
    let first_read_addr = safe_u16_add(vm.register.pc, pc_offset9);
    let addr = vm.memory.read(first_read_addr);
    let ghost mid = vm.memory@;
    vm.memory.write(addr, value);
    proof {
        assert(read_rel(old(vm).memory@, wrap_add(old(vm).register.pc, off9_of(instr)), addr, mid));
    }
}

/// Decodes one instruction word and runs the matching handler, handing it
/// the machine by exclusive borrow. Executing a reserved opcode stops the
/// run and leaves the machine untouched.
pub fn execute_instruction(instr: u16, vm: &mut Vm) -> (r: Signal)
    requires
        old(vm).wf(),
    ensures
        final(vm).wf(),
        step_post(*old(vm), *final(vm), instr, r),
{
    let op_code = get_op_code(instr);
    match op_code {
        Some(OpCode::BR) => {
            br(instr, vm);
            Signal::Continue
        },
        Some(OpCode::ADD) => {
            crate::instruction::add(instr, vm);
            Signal::Continue
        },
        Some(OpCode::LD) => {
            ld(instr, vm);
            Signal::Continue
        },
        Some(OpCode::ST) => {
            st(instr, vm);
            Signal::Continue
        },
        Some(OpCode::JSR) => {
            jsr(instr, vm);
            Signal::Continue
        },
        Some(OpCode::AND) => {
            and(instr, vm);
            Signal::Continue
        },
        Some(OpCode::LDR) => {
            ldr(instr, vm);
            Signal::Continue
        },
        Some(OpCode::STR) => {
            str(instr, vm);
            Signal::Continue
        },
        Some(OpCode::RTI) => Signal::ReservedOpcode,
        Some(OpCode::NOT) => {
            not(instr, vm);
            Signal::Continue
        },
        Some(OpCode::LDI) => {
            ldi(instr, vm);
            Signal::Continue
        },
        Some(OpCode::STI) => {
            sti(instr, vm);
            Signal::Continue
        },
        Some(OpCode::JMP) => {
            jmp(instr, vm);
            Signal::Continue
        },
        Some(OpCode::RES) => Signal::ReservedOpcode,
        Some(OpCode::LEA) => {
            lea(instr, vm);
            Signal::Continue
        },
        Some(OpCode::TRAP) => trap(instr, vm),
        None => Signal::ReservedOpcode,
    }
}

} // verus!
