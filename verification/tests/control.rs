//! Control flow: jumps, skips, the call stack, and the fatal failures.

use chip8::chip8::hw_bundle;
use chip8::cpu::CPU;
use chip8::instr::{decode, Chip8Error};

fn machine() -> (CPU, hw_bundle) {
    (CPU::new(), hw_bundle::default())
}

fn write_word(hw: &mut hw_bundle, addr: usize, word: u16) {
    hw.write_ram_value(addr, (word >> 8) as u8);
    hw.write_ram_value(addr + 1, (word & 0xFF) as u8);
}

#[test]
fn unknown_opcodes_are_fatal_never_silent() {
    // A sample from every unrecognised shape: legacy 0NNN machine calls,
    // bad low nibbles of 5/8/9, and bad low bytes of E/F.
    for &word in &[
        0x0000u16, 0x0123, 0x00E1, 0x5121, 0x8008, 0x800F, 0x9005, 0xE000, 0xE0A2, 0xF000,
        0xF0FF, 0xF056,
    ] {
        assert_eq!(decode(word), None, "word {word:04X} should not decode");
        let (mut cpu, mut hw) = machine();
        write_word(&mut hw, 0x200, word);
        let r = cpu.next_instruction(&mut hw);
        assert_eq!(r, Err(Chip8Error::UnknownOpcode { pc: 0x200, word }));
        // fatal and state-preserving: the program counter did not move
        assert_eq!(cpu.get_pc(), 0x200);
    }
}

#[test]
fn jump_sets_pc_exactly() {
    let (mut cpu, mut hw) = machine();
    write_word(&mut hw, 0x200, 0x1400);
    cpu.next_instruction(&mut hw).unwrap();
    assert_eq!(cpu.get_pc(), 0x400);
}

#[test]
fn jump_v0_adds_displacement() {
    let (mut cpu, mut hw) = machine();
    write_word(&mut hw, 0x200, 0x6004); // V0 = 4
    write_word(&mut hw, 0x202, 0xB300); // PC = 0x300 + V0
    cpu.next_instruction(&mut hw).unwrap();
    cpu.next_instruction(&mut hw).unwrap();
    assert_eq!(cpu.get_pc(), 0x304);
}

#[test]
fn call_ret_round_trip_restores_pc() {
    // PC before CALL equals PC after the matching RET.
    let (mut cpu, mut hw) = machine();
    write_word(&mut hw, 0x200, 0x2300); // CALL 0x300
    write_word(&mut hw, 0x300, 0x00EE); // RET
    cpu.next_instruction(&mut hw).unwrap();
    assert_eq!(cpu.get_pc(), 0x300);
    cpu.next_instruction(&mut hw).unwrap();
    assert_eq!(cpu.get_pc(), 0x200);
}

#[test]
fn ret_on_empty_stack_underflows() {
    let (mut cpu, mut hw) = machine();
    write_word(&mut hw, 0x200, 0x00EE);
    assert_eq!(cpu.next_instruction(&mut hw), Err(Chip8Error::StackUnderflow));
    assert_eq!(cpu.get_pc(), 0x200);
}

#[test]
fn seventeenth_call_overflows() {
    let (mut cpu, mut hw) = machine();
    // 0x200: CALL 0x200 forever: each call pushes one slot.
    write_word(&mut hw, 0x200, 0x2200);
    for _ in 0..16 {
        cpu.next_instruction(&mut hw).unwrap();
    }
    assert_eq!(cpu.next_instruction(&mut hw), Err(Chip8Error::StackOverflow));
    assert_eq!(cpu.get_pc(), 0x200);
}

#[test]
fn skip_eq_imm() {
    let (mut cpu, mut hw) = machine();
    write_word(&mut hw, 0x200, 0x6007);
    write_word(&mut hw, 0x202, 0x3007); // equal: skip
    cpu.next_instruction(&mut hw).unwrap();
    cpu.next_instruction(&mut hw).unwrap();
    assert_eq!(cpu.get_pc(), 0x206);

    let (mut cpu, mut hw) = machine();
    write_word(&mut hw, 0x200, 0x6007);
    write_word(&mut hw, 0x202, 0x3008); // not equal: no skip
    cpu.next_instruction(&mut hw).unwrap();
    cpu.next_instruction(&mut hw).unwrap();
    assert_eq!(cpu.get_pc(), 0x204);
}

#[test]
fn skip_ne_imm() {
    let (mut cpu, mut hw) = machine();
    write_word(&mut hw, 0x200, 0x4007); // V0 = 0 != 7: skip
    cpu.next_instruction(&mut hw).unwrap();
    assert_eq!(cpu.get_pc(), 0x204);

    let (mut cpu, mut hw) = machine();
    write_word(&mut hw, 0x200, 0x4000); // V0 = 0 == 0: no skip
    cpu.next_instruction(&mut hw).unwrap();
    assert_eq!(cpu.get_pc(), 0x202);
}

#[test]
fn skip_on_register_compare() {
    let (mut cpu, mut hw) = machine();
    write_word(&mut hw, 0x200, 0x6005);
    write_word(&mut hw, 0x202, 0x6105);
    write_word(&mut hw, 0x204, 0x5010); // equal: skip
    for _ in 0..3 {
        cpu.next_instruction(&mut hw).unwrap();
    }
    assert_eq!(cpu.get_pc(), 0x208);

    let (mut cpu, mut hw) = machine();
    write_word(&mut hw, 0x200, 0x6005);
    write_word(&mut hw, 0x202, 0x6106);
    write_word(&mut hw, 0x204, 0x9010); // not equal: skip
    for _ in 0..3 {
        cpu.next_instruction(&mut hw).unwrap();
    }
    assert_eq!(cpu.get_pc(), 0x208);

    let (mut cpu, mut hw) = machine();
    write_word(&mut hw, 0x200, 0x6005);
    write_word(&mut hw, 0x202, 0x6105);
    write_word(&mut hw, 0x204, 0x9010); // equal: no skip
    for _ in 0..3 {
        cpu.next_instruction(&mut hw).unwrap();
    }
    assert_eq!(cpu.get_pc(), 0x206);
}

#[test]
fn fetch_past_memory_end_is_out_of_bounds() {
    let (mut cpu, mut hw) = machine();
    write_word(&mut hw, 0x200, 0x1FFF); // PC = 0xFFF: the next fetch needs 0x1000
    cpu.next_instruction(&mut hw).unwrap();
    assert_eq!(
        cpu.next_instruction(&mut hw),
        Err(Chip8Error::OutOfBoundsAccess { addr: 4096 })
    );
    assert_eq!(cpu.get_pc(), 0xFFF);
}
