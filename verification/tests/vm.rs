use chip8_vm::machine::StepResult;
use chip8_vm::machine::CPU;
use chip8_vm::model::Fault;

#[test]
fn new_machine_is_zeroed() {
    let cpu = CPU::new();
    assert_eq!(cpu.registers.len(), 16);
    assert_eq!(cpu.memory.len(), 4096);
    assert_eq!(cpu.stack.len(), 16);
    assert_eq!(cpu.position_in_memory, 0);
    assert_eq!(cpu.stack_pointer, 0);
    assert!(cpu.registers.iter().all(|&r| r == 0));
    assert!(cpu.memory.iter().all(|&b| b == 0));
    assert!(cpu.stack.iter().all(|&w| w == 0));
}

#[test]
fn load_writes_big_endian() {
    let mut cpu = CPU::new();
    cpu.program(0x200, 0xABCD);
    assert_eq!(cpu.memory[0x200], 0xAB);
    assert_eq!(cpu.memory[0x201], 0xCD);
}

#[test]
fn load_then_fetch_round_trips() {
    let mut cpu = CPU::new();
    cpu.program(0x0, 0x8014);
    assert_eq!(cpu.read_opcode(), 0x8014);
    cpu.position_in_memory = 0x7FE;
    cpu.program(0x7FE, 0xFFFF);
    assert_eq!(cpu.read_opcode(), 0xFFFF);
    cpu.position_in_memory = 0xFFE;
    cpu.program(0xFFE, 0x1234);
    assert_eq!(cpu.read_opcode(), 0x1234);
}

#[test]
fn add_without_overflow_clears_flag() {
    let mut cpu = CPU::new();
    cpu.registers[0] = 5;
    cpu.registers[1] = 10;
    cpu.registers[15] = 1;
    cpu.add_xy(0, 1);
    assert_eq!(cpu.registers[0], 15);
    assert_eq!(cpu.registers[1], 10);
    assert_eq!(cpu.registers[15], 0);
}

#[test]
fn add_with_overflow_wraps_and_sets_flag() {
    let mut cpu = CPU::new();
    cpu.registers[3] = 200;
    cpu.registers[7] = 100;
    cpu.add_xy(3, 7);
    assert_eq!(cpu.registers[3], 44);
    assert_eq!(cpu.registers[15], 1);
}

#[test]
fn add_overflow_boundary() {
    let mut cpu = CPU::new();
    cpu.registers[0] = 128;
    cpu.registers[1] = 128;
    cpu.add_xy(0, 1);
    assert_eq!(cpu.registers[0], 0);
    assert_eq!(cpu.registers[15], 1);

    let mut cpu = CPU::new();
    cpu.registers[0] = 255;
    cpu.registers[1] = 0;
    cpu.add_xy(0, 1);
    assert_eq!(cpu.registers[0], 255);
    assert_eq!(cpu.registers[15], 0);
}

#[test]
fn add_into_flag_register_is_overwritten_by_flag() {
    let mut cpu = CPU::new();
    cpu.registers[15] = 7;
    cpu.registers[2] = 9;
    cpu.add_xy(15, 2);
    assert_eq!(cpu.registers[15], 0);
}

#[test]
fn call_then_return_resumes_after_call() {
    let mut cpu = CPU::new();
    cpu.program(0x000, 0x2100);
    cpu.program(0x100, 0x00EE);
    let r = cpu.run();
    assert_eq!(r, Ok(()));
    assert_eq!(cpu.stack_pointer, 0);
    assert_eq!(cpu.position_in_memory, 0x004);
}

#[test]
fn call_pushes_and_jumps() {
    let mut cpu = CPU::new();
    cpu.position_in_memory = 0x042;
    assert_eq!(cpu.call(0x300), Ok(()));
    assert_eq!(cpu.stack_pointer, 1);
    assert_eq!(cpu.stack[0], 0x042);
    assert_eq!(cpu.position_in_memory, 0x300);
}

#[test]
fn seventeenth_nested_call_overflows() {
    let mut cpu = CPU::new();
    for i in 0..16 {
        assert_eq!(cpu.call(0x100), Ok(()), "call {} should fit", i + 1);
    }
    assert_eq!(cpu.call(0x100), Err(Fault::StackOverflow));
    assert_eq!(cpu.stack_pointer, 16);
}

#[test]
fn run_faults_on_self_call_loop() {
    let mut cpu = CPU::new();
    cpu.program(0x000, 0x2000);
    assert_eq!(cpu.run(), Err(Fault::StackOverflow));
}

#[test]
fn return_on_empty_stack_underflows() {
    let mut cpu = CPU::new();
    assert_eq!(cpu.ret(), Err(Fault::StackUnderflow));
    let mut cpu = CPU::new();
    cpu.program(0x000, 0x00EE);
    assert_eq!(cpu.run(), Err(Fault::StackUnderflow));
}

#[test]
fn unrecognized_opcode_faults_with_raw_word() {
    let mut cpu = CPU::new();
    cpu.program(0x000, 0xF123);
    assert_eq!(cpu.run(), Err(Fault::UnimplementedOpcode(0xF123)));
}

#[test]
fn halt_stops_without_further_cycles() {
    let mut cpu = CPU::new();
    cpu.registers[4] = 99;
    let r = cpu.run();
    assert_eq!(r, Ok(()));
    assert_eq!(cpu.position_in_memory, 2);
    assert_eq!(cpu.registers[4], 99);
    assert_eq!(cpu.stack_pointer, 0);
}

#[test]
fn fetch_at_memory_edge_faults() {
    let mut cpu = CPU::new();
    cpu.position_in_memory = 4095;
    assert_eq!(cpu.run(), Err(Fault::FetchOutOfBounds));
    let mut cpu = CPU::new();
    cpu.position_in_memory = 4096;
    assert_eq!(cpu.run(), Err(Fault::FetchOutOfBounds));
}

#[test]
fn single_steps_report_their_outcome() {
    let mut cpu = CPU::new();
    cpu.program(0x000, 0x8014);
    cpu.program(0x002, 0x2000);
    assert_eq!(cpu.step(), StepResult::Stepped);
    assert_eq!(cpu.step(), StepResult::Stepped);
    assert_eq!(cpu.position_in_memory, 0x000);
    let mut cpu = CPU::new();
    assert_eq!(cpu.step(), StepResult::Halted);
    let mut cpu = CPU::new();
    cpu.program(0x000, 0x9999);
    assert_eq!(cpu.step(), StepResult::Faulted(Fault::UnimplementedOpcode(0x9999)));
}

#[test]
fn three_calls_into_double_add_subroutine() {
    let mut cpu = CPU::new();
    cpu.registers[0] = 5;
    cpu.registers[1] = 10;

    cpu.program(0x000, 0x2100);
    cpu.program(0x002, 0x2100);
    cpu.program(0x004, 0x2100);
    cpu.program(0x100, 0x8014);
    cpu.program(0x102, 0x8014);
    cpu.program(0x104, 0x00EE);

    let r = cpu.run();
    assert_eq!(r, Ok(()));
    assert_eq!(cpu.registers[0], 65);
    assert_eq!(cpu.registers[1], 10);
    assert_eq!(cpu.registers[15], 0);
    assert_eq!(cpu.stack_pointer, 0);
}
