use bytevm::cpu::{register_name, CPUError, CPU};
use bytevm::instructions::{
    ADD_REG_REG, JMP_NEQ, MOV_LIT_REG, MOV_MEM_REG, MOV_REG_MEM, MOV_REG_REG,
};
use bytevm::memory::{Memory, MemoryError};

const NAMES: [&str; 10] = ["ip", "acc", "r1", "r2", "r3", "r4", "r5", "r6", "r7", "r8"];

fn machine_with(program: &[u8]) -> CPU {
    let mut cpu = CPU::new(Memory::new(256));
    for (i, b) in program.iter().enumerate() {
        cpu.load(i, *b).unwrap();
    }
    cpu
}

#[test]
fn mov_lit_reg() {
    let mut instance = CPU::new(Memory::new(256));
    let _ = instance.load(0, 0x10); // instruction
    let _ = instance.load(1, 0x12); // byte0 literal
    let _ = instance.load(2, 0x34); // byte1 literal
    let _ = instance.load(3, 2); // register "R1"
    let _ = instance.step();
    assert_eq!(instance.get_register("r1").unwrap(), 0x1234);
}

#[test]
fn mov_reg_reg() {
    let mut instance = CPU::new(Memory::new(256));
    let _ = instance.load(0, 0x10); // instruction MOV LIT REG
    let _ = instance.load(1, 0x12); // byte0 literal
    let _ = instance.load(2, 0x34); // byte1 literal
    let _ = instance.load(3, 2); // register "R1"
    let _ = instance.load(4, 0x11); // instruction MOV REG REG
    let _ = instance.load(5, 2); // register "R1"
    let _ = instance.load(6, 3); // register "R2"
    let _ = instance.step();
    let _ = instance.step();
    assert_eq!(instance.get_register("r2").unwrap(), 0x1234);
}

#[test]
fn mov_reg_mem() {
    let mut instance = CPU::new(Memory::new(256));
    let _ = instance.load(0, 0x10); // instruction MOV LIT REG
    let _ = instance.load(1, 0x12); // byte0 literal
    let _ = instance.load(2, 0x34); // byte1 literal
    let _ = instance.load(3, 2); // register "R1"

    assert_eq!(0, 0);
}

#[test]
fn set_then_get_every_register() {
    let mut cpu = CPU::new(Memory::new(8));
    for name in NAMES {
        for v in [0u16, 1, 0x00FF, 0x0100, 0x1234, 0xABCD, 0xFFFF] {
            cpu.set_register(name, v).unwrap();
            assert_eq!(cpu.get_register(name).unwrap(), v);
        }
    }
}

#[test]
fn registers_are_independent() {
    let mut cpu = CPU::new(Memory::new(8));
    for (i, name) in NAMES.iter().enumerate() {
        cpu.set_register(name, 0x1100 + i as u16).unwrap();
    }
    let expected: Vec<u16> = (0..10).map(|i| 0x1100 + i as u16).collect();
    assert_eq!(cpu.dump(), expected);
}

#[test]
fn undeclared_names_are_refused() {
    let mut cpu = CPU::new(Memory::new(8));
    cpu.set_register("r3", 7).unwrap();
    let before = cpu.dump();
    for name in ["", "r0", "r9", "IP", "ACC", "r10", "accumulator", "i", "rr"] {
        assert_eq!(cpu.get_register(name), Err(CPUError::InvalidRegister));
        assert_eq!(cpu.set_register(name, 0xBEEF), Err(CPUError::InvalidRegister));
        assert_eq!(cpu.dump(), before);
    }
}

#[test]
fn mov_lit_reg_advances_ip_by_four() {
    let mut cpu = machine_with(&[MOV_LIT_REG, 0x12, 0x34, 2]);
    cpu.step().unwrap();
    assert_eq!(cpu.get_register("r1").unwrap(), 0x1234);
    assert_eq!(cpu.get_register("ip").unwrap(), 4);
}

#[test]
fn register_operand_is_reduced_modulo_count() {
    let mut cpu = machine_with(&[MOV_LIT_REG, 0x00, 0x2A, 12]);
    cpu.step().unwrap();
    assert_eq!(cpu.get_register("r1").unwrap(), 0x2A);
}

#[test]
fn add_reg_reg_sums_into_acc() {
    let mut cpu = machine_with(&[
        MOV_LIT_REG, 0x12, 0x34, 2, MOV_LIT_REG, 0xAB, 0xCD, 3, ADD_REG_REG, 2, 3,
    ]);
    cpu.step().unwrap();
    cpu.step().unwrap();
    cpu.step().unwrap();
    assert_eq!(cpu.get_register("acc").unwrap(), 0xBE01);
    assert_eq!(cpu.get_register("ip").unwrap(), 11);
}

#[test]
fn add_reg_reg_wraps_at_sixteen_bits() {
    let mut cpu = machine_with(&[
        MOV_LIT_REG, 0xFF, 0xFF, 2, MOV_LIT_REG, 0x00, 0x02, 3, ADD_REG_REG, 2, 3,
    ]);
    cpu.step().unwrap();
    cpu.step().unwrap();
    cpu.step().unwrap();
    assert_eq!(cpu.get_register("acc").unwrap(), 0x0001);
}

#[test]
fn jmp_neq_falls_through_on_equal() {
    let mut cpu = machine_with(&[JMP_NEQ, 0x00, 0x07, 0x00, 0x40]);
    cpu.set_register("acc", 7).unwrap();
    cpu.step().unwrap();
    assert_eq!(cpu.get_register("ip").unwrap(), 5);
}

#[test]
fn jmp_neq_jumps_on_difference() {
    let mut cpu = machine_with(&[JMP_NEQ, 0x00, 0x07, 0x00, 0x40]);
    cpu.set_register("acc", 8).unwrap();
    cpu.step().unwrap();
    assert_eq!(cpu.get_register("ip").unwrap(), 0x40);
}

#[test]
fn fetch_outside_memory_fails() {
    let mut cpu = CPU::new(Memory::new(4));
    cpu.set_register("ip", 4).unwrap();
    assert_eq!(cpu.fetch(), Err(CPUError::FetchFailure));
    assert_eq!(cpu.fetch16(), Err(CPUError::FetchFailure));
    assert_eq!(cpu.step(), Err(CPUError::FetchFailure));
    assert_eq!(cpu.get_register("ip").unwrap(), 4);
}

#[test]
fn fetch_reads_and_advances() {
    let mut cpu = CPU::new(Memory::new(4));
    cpu.load(1, 0x5A).unwrap();
    cpu.load(2, 0xC3).unwrap();
    cpu.set_register("ip", 1).unwrap();
    assert_eq!(cpu.fetch(), Ok(0x5A));
    assert_eq!(cpu.get_register("ip").unwrap(), 2);
    cpu.set_register("ip", 1).unwrap();
    assert_eq!(cpu.fetch16(), Ok(0x5AC3));
    assert_eq!(cpu.get_register("ip").unwrap(), 3);
}

#[test]
fn fetch16_half_outside_leaves_ip() {
    let mut cpu = CPU::new(Memory::new(4));
    cpu.set_register("ip", 3).unwrap();
    assert_eq!(cpu.fetch16(), Err(CPUError::FetchFailure));
    assert_eq!(cpu.get_register("ip").unwrap(), 3);
}

#[test]
fn truncated_operands_fail_without_effect() {
    let mut cpu = CPU::new(Memory::new(3));
    cpu.load(0, MOV_LIT_REG).unwrap();
    cpu.load(1, 0x12).unwrap();
    cpu.load(2, 0x34).unwrap();
    let before = cpu.dump();
    assert_eq!(cpu.step(), Err(CPUError::ExecutionFailure));
    assert_eq!(cpu.dump(), before);
}

#[test]
fn unknown_opcode_is_refused() {
    let mut cpu = machine_with(&[0xFF, 1, 2, 3]);
    assert_eq!(cpu.step(), Err(CPUError::InvalidInstruction));
    assert_eq!(cpu.get_register("ip").unwrap(), 0);
    assert_eq!(cpu.execute(0x00), Err(CPUError::InvalidInstruction));
}

#[test]
fn mov_reg_mem_stores_low_byte_first() {
    let mut cpu = machine_with(&[MOV_LIT_REG, 0x12, 0x34, 2, MOV_REG_MEM, 2, 0x00, 0x80]);
    cpu.step().unwrap();
    cpu.step().unwrap();
    assert_eq!(cpu.memory.read(0x80), Ok(0x34));
    assert_eq!(cpu.memory.read(0x81), Ok(0x12));
    assert_eq!(cpu.get_register("ip").unwrap(), 8);
}

#[test]
fn mov_mem_reg_loads_low_byte_first() {
    let mut cpu = machine_with(&[MOV_MEM_REG, 0x00, 0x80, 4]);
    cpu.load(0x80, 0xCD).unwrap();
    cpu.load(0x81, 0xAB).unwrap();
    cpu.step().unwrap();
    assert_eq!(cpu.get_register("r3").unwrap(), 0xABCD);
    assert_eq!(cpu.get_register("ip").unwrap(), 4);
}

#[test]
fn memory_moves_past_the_end_fail() {
    let mut cpu = machine_with(&[MOV_MEM_REG, 0x00, 0xFF, 4, MOV_REG_MEM, 2, 0x00, 0xFF]);
    let before = cpu.dump();
    assert_eq!(cpu.step(), Err(CPUError::ExecutionFailure));
    assert_eq!(cpu.dump(), before);
    cpu.set_register("ip", 4).unwrap();
    assert_eq!(cpu.step(), Err(CPUError::ExecutionFailure));
    assert_eq!(cpu.get_register("ip").unwrap(), 4);
    assert_eq!(cpu.memory.read(0xFF), Ok(0));
}

#[test]
fn mov_reg_reg_copies_source() {
    let mut cpu = machine_with(&[MOV_REG_REG, 5, 9]);
    cpu.set_register("r4", 0x0F0F).unwrap();
    cpu.step().unwrap();
    assert_eq!(cpu.get_register("r8").unwrap(), 0x0F0F);
    assert_eq!(cpu.get_register("r4").unwrap(), 0x0F0F);
    assert_eq!(cpu.get_register("ip").unwrap(), 3);
}

#[test]
fn ip_wraps_at_sixteen_bits() {
    let mut cpu = CPU::new(Memory::new(0x10000));
    cpu.load(0xFFFF, 0x77).unwrap();
    cpu.set_register("ip", 0xFFFF).unwrap();
    assert_eq!(cpu.fetch(), Ok(0x77));
    assert_eq!(cpu.get_register("ip").unwrap(), 0);
}

#[test]
fn dumps_without_step_are_identical() {
    let mut cpu = machine_with(&[MOV_LIT_REG, 0x12, 0x34, 2]);
    cpu.step().unwrap();
    let first = cpu.dump();
    let second = cpu.dump();
    assert_eq!(first, second);
    assert_eq!(first, vec![4, 0, 0x1234, 0, 0, 0, 0, 0, 0, 0]);
}

#[test]
fn load_outside_memory_fails() {
    let mut cpu = CPU::new(Memory::new(4));
    assert_eq!(cpu.load(4, 1), Err(CPUError::LoadFailure));
    assert_eq!(cpu.load(3, 1), Ok(()));
    assert_eq!(cpu.memory.read(3), Ok(1));
}

#[test]
fn register_names_in_declaration_order() {
    let names: Vec<&str> = (0..10).map(register_name).collect();
    assert_eq!(names, NAMES.to_vec());
}

#[test]
fn memory_is_zeroed_and_bounded() {
    let mut m = Memory::new(3);
    assert_eq!(m.len(), 3);
    assert_eq!(m.read(2), Ok(0));
    assert_eq!(m.read(3), Err(MemoryError::OutOfBounds));
    assert_eq!(m.write(1, 9), Ok(()));
    assert_eq!(m.read(1), Ok(9));
    assert_eq!(m.write(3, 9), Err(MemoryError::OutOfBounds));
    assert_eq!(m.len(), 3);
}
