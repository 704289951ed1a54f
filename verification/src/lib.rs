//! A 16-bit word-addressed virtual machine: eight general registers, a
//! program counter, condition flags, a 65536-word memory with a
//! memory-mapped keyboard device, and sixteen instruction semantics driven
//! by a fetch-decode-execute loop.

pub mod bits;
pub mod flags;
mod host;
pub mod instruction;
pub mod memory;
pub mod registers;
pub mod trap;
pub mod vm;

pub use bits::{high_byte, low_byte, safe_u16_add, sign_extend};
pub use flags::{get_cond_flag, ConditionFlag};
pub use instruction::{
    add, and, br, execute_instruction, get_op_code, jmp, jsr, ld, ldi, ldr, lea, not, st, sti, str,
    OpCode,
};
pub use memory::Memory;
pub use registers::Register;
pub use trap::{
    collect_string, get_trap_code, getc, halt, out, puts, puts_output, putsp, putsp_output, trap,
    trap_in, Signal, TrapCode,
};
pub use vm::Vm;
