use lc3_vm::{
    collect_string, execute_instruction, get_cond_flag, get_op_code, get_trap_code, high_byte,
    low_byte, puts_output, putsp_output, safe_u16_add, sign_extend, trap, ConditionFlag, OpCode,
    Register, Signal, TrapCode, Vm,
};

#[test]
fn sign_extend_negative_field() {
    // 0b11101 read as a 5-bit two's-complement number is -3, i.e. 65533.
    assert_eq!(sign_extend(0b11101, 5), 65533);
}

#[test]
fn sign_extend_positive_field() {
    // the 9-bit field 107 has a clear sign bit and comes back unchanged
    assert_eq!(sign_extend(107, 9), 107);
}

#[test]
fn sign_extend_all_ones() {
    // a 9-bit field of all ones is -1
    assert_eq!(sign_extend(0x1FF, 9), 0xFFFF);
}

#[test]
fn sign_extend_clears_high_bits() {
    // a positive field keeps only its low bits: bit 9 is above the field
    assert_eq!(sign_extend(0b10_0000_0001, 9), 1);
}

#[test]
fn wraparound_addition() {
    assert_eq!(safe_u16_add(65535, 1), 0);
    assert_eq!(safe_u16_add(105, 64549), 64654);
    assert_eq!(safe_u16_add(12, 30), 42);
}

#[test]
fn condition_flag_of_each_sign() {
    assert_eq!(get_cond_flag(0), ConditionFlag::ZRO.bits());
    assert_eq!(get_cond_flag(0x8000), ConditionFlag::NEG.bits());
    assert_eq!(get_cond_flag(5), ConditionFlag::POS.bits());
    assert_eq!(get_cond_flag(0x7FFF), ConditionFlag::POS.bits());
}

#[test]
fn flag_bits_are_distinct() {
    assert_eq!(ConditionFlag::POS.bits(), 1);
    assert_eq!(ConditionFlag::ZRO.bits(), 2);
    assert_eq!(ConditionFlag::NEG.bits(), 4);
}

#[test]
fn decoder_covers_every_nibble() {
    assert_eq!(get_op_code(0x0000), Some(OpCode::BR));
    assert_eq!(get_op_code(0x1000), Some(OpCode::ADD));
    assert_eq!(get_op_code(0x2000), Some(OpCode::LD));
    assert_eq!(get_op_code(0x3000), Some(OpCode::ST));
    assert_eq!(get_op_code(0x4000), Some(OpCode::JSR));
    assert_eq!(get_op_code(0x5000), Some(OpCode::AND));
    assert_eq!(get_op_code(0x6000), Some(OpCode::LDR));
    assert_eq!(get_op_code(0x7000), Some(OpCode::STR));
    assert_eq!(get_op_code(0x8000), Some(OpCode::RTI));
    assert_eq!(get_op_code(0x9000), Some(OpCode::NOT));
    assert_eq!(get_op_code(0xA000), Some(OpCode::LDI));
    assert_eq!(get_op_code(0xB000), Some(OpCode::STI));
    assert_eq!(get_op_code(0xC000), Some(OpCode::JMP));
    assert_eq!(get_op_code(0xD000), Some(OpCode::RES));
    assert_eq!(get_op_code(0xE000), Some(OpCode::LEA));
    assert_eq!(get_op_code(0xF025), Some(OpCode::TRAP));
}

#[test]
fn trap_decoder() {
    assert_eq!(get_trap_code(0xF020), Some(TrapCode::GETC));
    assert_eq!(get_trap_code(0xF021), Some(TrapCode::OUT));
    assert_eq!(get_trap_code(0xF022), Some(TrapCode::PUTS));
    assert_eq!(get_trap_code(0xF023), Some(TrapCode::IN));
    assert_eq!(get_trap_code(0xF024), Some(TrapCode::PUTSP));
    assert_eq!(get_trap_code(0xF025), Some(TrapCode::HALT));
    assert_eq!(get_trap_code(0xF026), None);
    assert_eq!(get_trap_code(0xF0FF), None);
}

#[test]
fn register_bank_get_update() {
    let mut r = Register::new();
    r.update(3, 77);
    r.update(7, 11);
    assert_eq!(r.get(3), 77);
    assert_eq!(r.get(7), 11);
    assert_eq!(r.get(0), 0);
    assert_eq!(r.r3, 77);
}

#[test]
fn memory_write_then_read() {
    let mut vm = Vm::new();
    vm.memory.write(0x1234, 999);
    assert_eq!(vm.memory.read(0x1234), 999);
    assert_eq!(vm.memory.read(0x1235), 0);
}

#[test]
fn execute_dispatches_add() {
    let mut vm = Vm::new();
    vm.register.r1 = 4917;
    vm.register.r2 = 98;
    let signal = execute_instruction(0b_0001_000_001_0_00_010, &mut vm);
    assert_eq!(signal, Signal::Continue);
    assert_eq!(vm.register.r0, 5015);
}

#[test]
fn execute_reserved_opcodes_stop_the_run() {
    let mut vm = Vm::new();
    vm.register.r1 = 42;
    assert_eq!(execute_instruction(0x8000, &mut vm), Signal::ReservedOpcode);
    assert_eq!(execute_instruction(0xD000, &mut vm), Signal::ReservedOpcode);
    // the machine is left untouched
    assert_eq!(vm.register.r1, 42);
    assert_eq!(vm.register.pc, 0);
}

#[test]
fn unknown_trap_vector_stops_the_run() {
    let mut vm = Vm::new();
    assert_eq!(execute_instruction(0xF0FF, &mut vm), Signal::UnknownTrap);
}

#[test]
fn halt_trap_signals_halted() {
    let mut vm = Vm::new();
    assert_eq!(trap(0xF025, &mut vm), Signal::Halted);
}

#[test]
fn out_trap_prints_low_byte_and_continues() {
    let mut vm = Vm::new();
    vm.register.r0 = 0x4241; // low byte 'A'
    let signal = execute_instruction(0xF021, &mut vm);
    assert_eq!(signal, Signal::Continue);
    assert_eq!(vm.register.r0, 0x4241);
}

#[test]
fn puts_trap_walks_until_zero_word() {
    let mut vm = Vm::new();
    vm.memory.write(0x3000, 'H' as u16);
    vm.memory.write(0x3001, 'i' as u16);
    vm.memory.write(0x3002, 0);
    vm.register.r0 = 0x3000;
    let signal = trap(0xF022, &mut vm);
    assert_eq!(signal, Signal::Continue);
    assert_eq!(vm.memory.read(0x3001), 'i' as u16);
    assert_eq!(vm.register.r0, 0x3000);
}

#[test]
fn putsp_trap_unpacks_two_bytes_per_word() {
    let mut vm = Vm::new();
    vm.memory.write(0x3000, ('a' as u16) | (('b' as u16) << 8));
    vm.memory.write(0x3001, 'c' as u16); // zero high byte: no second character
    vm.memory.write(0x3002, 0);
    vm.register.r0 = 0x3000;
    let signal = trap(0xF024, &mut vm);
    assert_eq!(signal, Signal::Continue);
    assert_eq!(vm.register.r0, 0x3000);
}

#[test]
fn word_byte_halves() {
    assert_eq!(low_byte(0x4241), 0x41);
    assert_eq!(high_byte(0x4241), 0x42);
    assert_eq!(low_byte(0x00FF), 0xFF);
    assert_eq!(high_byte(0x00FF), 0x00);
}

#[test]
fn collect_string_stops_at_zero_word() {
    let mut vm = Vm::new();
    vm.memory.write(100, 7);
    vm.memory.write(101, 8);
    vm.memory.write(102, 0);
    let ws = collect_string(&mut vm.memory, 100);
    assert_eq!(ws, vec![7, 8]);
    // an immediate zero word gives an empty string
    let empty = collect_string(&mut vm.memory, 102);
    assert_eq!(empty, Vec::<u16>::new());
}

#[test]
fn puts_output_takes_each_low_byte() {
    let ws: Vec<u16> = vec![0x0041, 0x1242, 0xFF43];
    assert_eq!(puts_output(&ws), vec![0x41, 0x42, 0x43]);
}

#[test]
fn putsp_output_unpacks_two_bytes_per_word() {
    // 'a' with 'b' packed above it, then 'c' alone: the zero high byte
    // suppresses the second character of the last word
    let ws: Vec<u16> = vec![('a' as u16) | (('b' as u16) << 8), 'c' as u16];
    assert_eq!(putsp_output(&ws), vec![b'a', b'b', b'c']);
}

#[test]
fn image_load_places_words_from_origin() {
    let mut vm = Vm::new();
    // origin 0x3000, then the words 0x1234 and 0xABCD
    let image: Vec<u8> = vec![0x30, 0x00, 0x12, 0x34, 0xAB, 0xCD];
    vm.load_image(&image);
    assert_eq!(vm.memory.read(0x3000), 0x1234);
    assert_eq!(vm.memory.read(0x3001), 0xABCD);
    assert_eq!(vm.memory.read(0x3002), 0);
    assert_eq!(vm.memory.read(0x2FFF), 0);
}

#[test]
fn image_load_drops_odd_trailing_byte() {
    let mut vm = Vm::new();
    let image: Vec<u8> = vec![0x30, 0x00, 0x12, 0x34, 0xFF];
    vm.load_image(&image);
    assert_eq!(vm.memory.read(0x3000), 0x1234);
    assert_eq!(vm.memory.read(0x3001), 0);
}

#[test]
fn image_load_twice_is_idempotent() {
    let mut once = Vm::new();
    let mut twice = Vm::new();
    let image: Vec<u8> = vec![0x30, 0x00, 0x00, 0x2A, 0xBE, 0xEF];
    once.load_image(&image);
    twice.load_image(&image);
    twice.load_image(&image);
    for addr in [0x2FFF_u16, 0x3000, 0x3001, 0x3002, 0x0000, 0xFFFF] {
        assert_eq!(once.memory.read(addr), twice.memory.read(addr));
    }
}

#[test]
fn launch_runs_until_halt() {
    let mut vm = Vm::new();
    // origin 0x3000: ADD r0 = r1 + r2, then TRAP HALT
    let image: Vec<u8> = vec![0x30, 0x00, 0b0001_000_0, 0b01_0_00_010, 0xF0, 0x25];
    vm.load_image(&image);
    vm.register.r1 = 40;
    vm.register.r2 = 2;
    vm.register.pc = 0x3000;
    let signal = vm.launch();
    assert_eq!(signal, Signal::Halted);
    assert_eq!(vm.register.r0, 42);
    assert_eq!(vm.register.pc, 0x3002);
}

#[test]
fn launch_stops_on_reserved_opcode() {
    let mut vm = Vm::new();
    let image: Vec<u8> = vec![0x30, 0x00, 0x80, 0x00]; // RTI at the origin
    vm.load_image(&image);
    vm.register.pc = 0x3000;
    assert_eq!(vm.launch(), Signal::ReservedOpcode);
}
