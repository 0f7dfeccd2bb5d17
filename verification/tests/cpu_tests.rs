use chip8_cpu::codec::decompose;
use chip8_cpu::cpu::Fault;
use chip8_cpu::cpu::Status;
use chip8_cpu::cpu::CPU;
use chip8_cpu::cpu::decode;
use chip8_cpu::cpu::Instr;

#[test]
pub fn chip8_add_with_register0_and_register1() {
    let mut cpu = CPU::new();

    cpu.registers[0] = 5;
    cpu.registers[1] = 10;

    cpu.memory[0] = 0x80;
    cpu.memory[1] = 0x14;
    let r = cpu.run();
    assert!(r.is_ok());

    assert_eq!(cpu.registers[0], 15);
}

#[test]
pub fn chip8_add_with_register0_and_register4() {
    let mut cpu = CPU::new();

    cpu.registers[0] = 2;
    cpu.registers[4] = 3;

    cpu.memory[0] = 0x80;
    cpu.memory[1] = 0x44;

    let r = cpu.run();
    assert!(r.is_ok());

    assert_eq!(cpu.registers[0], 5);
}

#[test]
pub fn chip8_add_with_overflow_flag() {
    let mut cpu = CPU::new();

    cpu.registers[0] = 120;
    cpu.registers[1] = 250;

    cpu.memory[0] = 0x80;
    cpu.memory[1] = 0x14;

    let r = cpu.run();
    assert!(r.is_ok());

    assert_eq!(cpu.registers[15], 1);
}

#[test]
pub fn chip8_or() {
    let mut cpu = CPU::new();

    cpu.registers[0] = 0b10;
    cpu.registers[1] = 0b01;

    cpu.memory[0] = 0x80;
    cpu.memory[1] = 0x11;

    let r = cpu.run();
    assert!(r.is_ok());

    assert_eq!(cpu.registers[0], 0b11);
}

#[test]
pub fn chip8_and() {
    let mut cpu = CPU::new();

    cpu.registers[0] = 0b1110;
    cpu.registers[1] = 0b0110;

    cpu.memory[0] = 0x80;
    cpu.memory[1] = 0x12;

    let r = cpu.run();
    assert!(r.is_ok());

    assert_eq!(cpu.registers[0], 0b0110)
}

#[test]
pub fn chip8_sub() {
    let mut cpu = CPU::new();

    cpu.registers[0] = 20;
    cpu.registers[1] = 10;

    cpu.memory[0] = 0x80;
    cpu.memory[1] = 0x15;

    let r = cpu.run();
    assert!(r.is_ok());

    assert_eq!(cpu.registers[0], 10);
}

#[test]
pub fn chip8_sub_with_negative() {
    let mut cpu = CPU::new();

    cpu.registers[0] = 10u8;
    cpu.registers[1] = 15u8;

    cpu.memory[0] = 0x80;
    cpu.memory[1] = 0x15;

    let r = cpu.run();
    assert!(r.is_ok());

    // the difference wraps modulo 256: (10 - 15) mod 256 = 251
    assert_eq!(cpu.registers[0], 251);
    assert_eq!(cpu.registers[15], 1);
}

#[test]
pub fn chip8_and_or() {
    let mut cpu = CPU::new();

    cpu.registers[0] = 0b0110;
    cpu.registers[1] = 0b1010;

    cpu.registers[2] = 0b1101;
    cpu.registers[3] = 0b0011;

    cpu.memory[0] = 0x80;
    cpu.memory[1] = 0x11;

    cpu.memory[2] = 0x82;
    cpu.memory[3] = 0x31;

    cpu.memory[4] = 0x80;
    cpu.memory[5] = 0x22;

    let r = cpu.run();
    assert!(r.is_ok());

    assert_eq!(cpu.registers[0], 0b1110)
}

#[test]
pub fn chip8_add_more_than_two_registers() {
    let mut cpu = CPU::new();

    cpu.registers[0] = 10;
    cpu.registers[1] = 15;

    cpu.registers[2] = 23;
    cpu.registers[3] = 24;

    cpu.memory[0] = 0x80;
    cpu.memory[1] = 0x14;

    cpu.memory[2] = 0x82;
    cpu.memory[3] = 0x34;

    cpu.memory[4] = 0x80;
    cpu.memory[5] = 0x24;

    let r = cpu.run();
    assert!(r.is_ok());

    assert_eq!(cpu.registers[0], 72);
}

#[test]
pub fn test_function_call() {
    let mut cpu = CPU::new();

    cpu.registers[0] = 5;
    cpu.registers[1] = 10;

    // Call function at addr 0x100 2 times
    (cpu.memory[0x000], cpu.memory[0x001]) = decompose(0x2100);
    (cpu.memory[0x002], cpu.memory[0x003]) = decompose(0x2100);

    // Halt program
    (cpu.memory[0x004], cpu.memory[0x005]) = decompose(0x0000);

    // Function definition, it adds value in register 1 to register 0 and stores in 0.
    (cpu.memory[0x100], cpu.memory[0x101]) = decompose(0x8014);
    // Function definition, it adds value in register 1 to register 0 and stores in 0.
    (cpu.memory[0x102], cpu.memory[0x103]) = decompose(0x8014);
    // Return
    (cpu.memory[0x104], cpu.memory[0x105]) = decompose(0x00ee);

    let r = cpu.run();
    assert!(r.is_ok());

    assert_eq!(cpu.registers[0], 45);
}

#[test]
pub fn halt_sentinel_terminates_without_mutation() {
    let mut cpu = CPU::new();
    cpu.registers[3] = 99;

    // memory is all zero, so the very first fetch reads the halt sentinel
    let r = cpu.run();

    assert_eq!(r, Ok(()));
    assert_eq!(cpu.registers[3], 99);
    for i in 0..16 {
        if i != 3 {
            assert_eq!(cpu.registers[i], 0);
        }
    }
    assert_eq!(cpu.stack_pointer, 0);
}

#[test]
pub fn unimplemented_opcode_is_a_fault() {
    let mut cpu = CPU::new();

    // opcode class 5 stands in no row of the decoding table
    cpu.memory[0] = 0x51;
    cpu.memory[1] = 0x23;

    let r = cpu.run();

    assert_eq!(r, Err(Fault::UnimplementedOpcode));
}

#[test]
pub fn return_with_empty_stack_underflows() {
    let mut cpu = CPU::new();

    (cpu.memory[0], cpu.memory[1]) = decompose(0x00ee);

    let r = cpu.run();

    assert_eq!(r, Err(Fault::StackUnderflow));
}

#[test]
pub fn unbounded_recursion_overflows_the_stack() {
    let mut cpu = CPU::new();

    // the instruction at address 0 calls address 0 again, forever
    (cpu.memory[0], cpu.memory[1]) = decompose(0x2000);

    let r = cpu.run();

    assert_eq!(r, Err(Fault::StackOverflow));
    assert_eq!(cpu.stack_pointer, 16);
}

#[test]
pub fn fetch_past_end_of_memory_is_a_fault() {
    let mut cpu = CPU::new();

    // call the last byte of memory: no full 16-bit word can be fetched there
    (cpu.memory[0], cpu.memory[1]) = decompose(0x2fff);

    let r = cpu.run();

    assert_eq!(r, Err(Fault::OutOfBoundsMemoryAccess));
}

#[test]
pub fn step_reports_running_then_halted() {
    let mut cpu = CPU::new();

    cpu.registers[0] = 5;
    cpu.registers[1] = 10;
    (cpu.memory[0], cpu.memory[1]) = decompose(0x8014);

    assert_eq!(cpu.step(), Ok(Status::Running));
    assert_eq!(cpu.registers[0], 15);
    assert_eq!(cpu.position_in_memory, 2);

    assert_eq!(cpu.step(), Ok(Status::Halted));
    assert_eq!(cpu.position_in_memory, 4);
}

#[test]
pub fn add_without_overflow_resets_the_flag() {
    let mut cpu = CPU::new();

    cpu.registers[0] = 120;
    cpu.registers[1] = 250;
    cpu.registers[2] = 1;
    cpu.registers[3] = 1;

    // the first add overflows and sets the flag; the second must clear it again
    (cpu.memory[0], cpu.memory[1]) = decompose(0x8014);
    (cpu.memory[2], cpu.memory[3]) = decompose(0x8234);

    let r = cpu.run();
    assert!(r.is_ok());

    assert_eq!(cpu.registers[0], 114);
    assert_eq!(cpu.registers[2], 2);
    assert_eq!(cpu.registers[15], 0);
}

#[test]
pub fn sub_without_underflow_resets_the_flag() {
    let mut cpu = CPU::new();

    cpu.registers[0] = 20;
    cpu.registers[1] = 10;
    cpu.registers[15] = 1;

    (cpu.memory[0], cpu.memory[1]) = decompose(0x8015);

    let r = cpu.run();
    assert!(r.is_ok());

    assert_eq!(cpu.registers[0], 10);
    assert_eq!(cpu.registers[15], 0);
}

#[test]
pub fn add_register_to_itself_doubles_it() {
    let mut cpu = CPU::new();

    cpu.registers[0] = 7;

    (cpu.memory[0], cpu.memory[1]) = decompose(0x8004);

    let r = cpu.run();
    assert!(r.is_ok());

    assert_eq!(cpu.registers[0], 14);
    assert_eq!(cpu.registers[15], 0);
}

#[test]
pub fn sub_register_from_itself_yields_zero() {
    let mut cpu = CPU::new();

    cpu.registers[4] = 123;

    (cpu.memory[0], cpu.memory[1]) = decompose(0x8445);

    let r = cpu.run();
    assert!(r.is_ok());

    assert_eq!(cpu.registers[4], 0);
    assert_eq!(cpu.registers[15], 0);
}

#[test]
pub fn flag_register_as_add_destination_reads_the_flag() {
    let mut cpu = CPU::new();

    // the flag write lands after the sum, so register 15 ends as the carry
    cpu.registers[15] = 3;
    cpu.registers[1] = 10;

    (cpu.memory[0], cpu.memory[1]) = decompose(0x8f14);

    let r = cpu.run();
    assert!(r.is_ok());

    assert_eq!(cpu.registers[15], 0);

    let mut cpu = CPU::new();
    cpu.registers[15] = 200;
    cpu.registers[1] = 100;

    (cpu.memory[0], cpu.memory[1]) = decompose(0x8f14);

    let r = cpu.run();
    assert!(r.is_ok());

    assert_eq!(cpu.registers[15], 1);
}

#[test]
pub fn nested_calls_return_to_their_call_sites() {
    let mut cpu = CPU::new();

    cpu.registers[0] = 1;
    cpu.registers[1] = 2;

    // main: call 0x200, halt
    (cpu.memory[0x000], cpu.memory[0x001]) = decompose(0x2200);
    (cpu.memory[0x002], cpu.memory[0x003]) = decompose(0x0000);

    // subroutine at 0x200: add, call 0x300, add, return
    (cpu.memory[0x200], cpu.memory[0x201]) = decompose(0x8014);
    (cpu.memory[0x202], cpu.memory[0x203]) = decompose(0x2300);
    (cpu.memory[0x204], cpu.memory[0x205]) = decompose(0x8014);
    (cpu.memory[0x206], cpu.memory[0x207]) = decompose(0x00ee);

    // subroutine at 0x300: add, return
    (cpu.memory[0x300], cpu.memory[0x301]) = decompose(0x8014);
    (cpu.memory[0x302], cpu.memory[0x303]) = decompose(0x00ee);

    let r = cpu.run();
    assert!(r.is_ok());

    // three adds of register 1 into register 0
    assert_eq!(cpu.registers[0], 7);
    assert_eq!(cpu.stack_pointer, 0);
}

#[test]
pub fn decode_matches_the_opcode_table() {
    assert_eq!(decode(0x0000), Instr::Halt);
    assert_eq!(decode(0x00ee), Instr::Ret);
    assert_eq!(decode(0x2abc), Instr::Call(0xabc));
    assert_eq!(decode(0x8121), Instr::Or(1, 2));
    assert_eq!(decode(0x8342), Instr::And(3, 4));
    assert_eq!(decode(0x8564), Instr::Add(5, 6));
    assert_eq!(decode(0x8785), Instr::Sub(7, 8));
    assert_eq!(decode(0x5123), Instr::Unimplemented);
    assert_eq!(decode(0x8013), Instr::Unimplemented);
    assert_eq!(decode(0x00e0), Instr::Unimplemented);
}
