use lc3_vm::{add, and, br, jmp, jsr, ld, ldi, ldr, lea, not, st, sti, str, ConditionFlag, Vm};

#[test]
fn add_test_register_mode() {
    let mut vm = Vm::new();

    vm.register.r1 = 4917;
    vm.register.r2 = 98;

    // load r1=4917 and r2=98, then add the values=>5015, then write to r0
    add(0b_0001_000_001_0_00_010, &mut vm);

    assert_eq!(vm.register.r0, 5015);
    assert_eq!(vm.register.cond, ConditionFlag::POS.bits());
}

#[test]
fn test_register_mode_with_negative_num() {
    let mut vm = Vm::new();

    vm.register.r1 = 105;
    vm.register.r2 = 64549; // -987

    // load r1=105 and r2=-987, then add the values=>-882 (=64654), then write to r0
    add(0b_0001_000_001_0_00_010, &mut vm);

    assert_eq!(vm.register.r0, 64654);
    assert_eq!(vm.register.cond, ConditionFlag::NEG.bits());
}

#[test]
fn add_test_immediate_mode() {
    let mut vm = Vm::new();

    vm.register.r6 = 16384;

    // load r6=16384, then add sr2=29 (=-3), then write result=16381 to r6
    add(0b_0001_110_110_1_11101, &mut vm);

    assert_eq!(vm.register.r6, 16381);
    assert_eq!(vm.register.cond, ConditionFlag::POS.bits());
}

#[test]
fn and_test_register_mode() {
    let mut vm = Vm::new();

    vm.register.r1 = 4917;
    vm.register.r2 = 98;

    // load r1=4917 and r2=98, then compute bitwise AND result=32, then write to r0
    and(0b_0001_000_001_0_00_010, &mut vm);

    assert_eq!(vm.register.r0, 32);
    assert_eq!(vm.register.cond, ConditionFlag::POS.bits());
}

#[test]
fn and_test_immediate_mode() {
    let mut vm = Vm::new();

    vm.register.r1 = 105;

    // load r1=105, then AND with imm5=7, then write result=1 to r0
    and(0b_0001_000_001_1_00111, &mut vm);

    assert_eq!(vm.register.r0, 1);
    assert_eq!(vm.register.cond, ConditionFlag::POS.bits());
}

#[test]
fn test_match() {
    let mut vm = Vm::new();

    vm.register.pc = 97;
    vm.register.cond = 4;

    // condition mask tests N (=4), cond=4 matches, so pc=97+107=204
    br(0b0000_1_0_0_001101011, &mut vm);

    assert_eq!(vm.register.pc, 204);
}

#[test]
fn test_mismatch() {
    let mut vm = Vm::new();

    vm.register.pc = 97;
    vm.register.cond = 2;

    // condition mask tests N (=4), cond=2 does not match, so pc stays
    br(0b0000_1_0_0_001101011, &mut vm);

    assert_eq!(vm.register.pc, 97);
}

#[test]
fn jmp_test() {
    let mut vm = Vm::new();

    vm.register.r5 = 16;

    // load r5=16, then write to pc
    jmp(0b1100_000_101_000000, &mut vm);

    assert_eq!(vm.register.pc, 16);
}

#[test]
fn jsr_test() {
    let mut vm = Vm::new();

    vm.register.pc = 98; // write 98 to pc

    // load pc=98, then write to r7, then add pc_offset11=860, write result=958 to pc
    jsr(0b_0100_1_01101011100, &mut vm);

    assert_eq!(vm.register.pc, 958);
    assert_eq!(vm.register.r7, 98);
}

#[test]
fn jsr_test_register_mode() {
    let mut vm = Vm::new();

    vm.register.pc = 98; // write 98 to pc
    vm.register.r3 = 1092;

    // load pc=98, then write to r7, then load r3=1092, then write r3=1092 to pc
    jsr(0b_0100_0_00_011_000000, &mut vm);

    assert_eq!(vm.register.r3, 1092);
}

#[test]
fn ld_test() {
    let mut vm = Vm::new();

    vm.memory.write(69, 132);
    vm.register.pc = 35;

    // load pc=35, then add pc_offset9=34, then load memory at addr=69, then write 132 to r3
    ld(0b0010_011_000100010, &mut vm);

    assert_eq!(vm.register.r3, 132);
    assert_eq!(vm.register.cond, ConditionFlag::POS.bits());
}

#[test]
fn ldi_test() {
    let mut vm = Vm::new();

    vm.register.pc = 1095;
    vm.memory.write(1095 + 33, 458);
    vm.memory.write(458, 101);

    // load memory at addr = pc+33, then save to r3
    ldi(0b1010_011_000100001, &mut vm);

    assert_eq!(vm.register.r3, 101);
    assert_eq!(vm.register.cond, ConditionFlag::POS.bits());
}

#[test]
fn ldr_test() {
    let mut vm = Vm::new();

    vm.memory.write(53, 132);
    vm.register.r1 = 35;

    // load r1=35, then add offset6=18, then load memory at addr=53, then write 132 to r3
    ldr(0b1010_011_001_010010, &mut vm);

    println!("{:?}", vm.register);

    assert_eq!(vm.register.r3, 132);
    assert_eq!(vm.register.cond, ConditionFlag::POS.bits());
}

#[test]
fn lea_test() {
    let mut vm = Vm::new();

    vm.register.pc = 17;

    // compute pc+pc_offset9=17+13=30, then write to r2
    lea(0b1110_010_000001101, &mut vm);

    assert_eq!(vm.register.r2, 30);
    assert_eq!(vm.register.cond, ConditionFlag::POS.bits());
}

#[test]
fn not_test() {
    let mut vm = Vm::new();

    vm.register.r5 = 0b1101_1011_1110_0011;

    // load r5, then negate the value, then write result to r4
    not(0b1001_100_101_1_11111, &mut vm);

    assert_eq!(vm.register.r4, 0b0010_0100_0001_1100);
    assert_eq!(vm.register.cond, ConditionFlag::POS.bits());
}

#[test]
fn st_test() {
    let mut vm = Vm::new();

    vm.register.pc = 17;
    vm.register.r2 = 8901;

    // load r2=8901, then write to memory at pc+pc_offset9=17+157=174
    st(0b0011_010_010011101, &mut vm);

    assert_eq!(vm.memory.read(174), 8901);
}

#[test]
fn sti_test() {
    let mut vm = Vm::new();

    vm.register.pc = 17;
    vm.memory.write(30, 98);
    vm.register.r2 = 1320;

    // load memory=98 at pc+pc_offset9=17+13=30, then load r2=1320, then write 1320 to memory at 98
    sti(0b1011_010_000001101, &mut vm);

    assert_eq!(vm.memory.read(98), 1320);
}

#[test]
fn str_test() {
    let mut vm = Vm::new();

    vm.register.r0 = 17;
    vm.register.r2 = 8901;

    // load r0=17, then load r2=8901, then write r2 to memory at r0+offset6=17+29=46
    str(0b0111_010_000_011101, &mut vm);

    assert_eq!(vm.memory.read(46), 8901);
}
