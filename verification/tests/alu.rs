//! Arithmetic and logic opcodes, including the VF flag conventions.

use chip8::chip8::hw_bundle;
use chip8::cpu::CPU;

fn machine() -> (CPU, hw_bundle) {
    (CPU::new(), hw_bundle::default())
}

fn write_word(hw: &mut hw_bundle, addr: usize, word: u16) {
    hw.write_ram_value(addr, (word >> 8) as u8);
    hw.write_ram_value(addr + 1, (word & 0xFF) as u8);
}

fn run_program(words: &[u16]) -> (CPU, hw_bundle) {
    let (mut cpu, mut hw) = machine();
    let mut addr = 0x200;
    for w in words {
        write_word(&mut hw, addr, *w);
        addr += 2;
    }
    for _ in 0..words.len() {
        cpu.next_instruction(&mut hw).expect("program step failed");
    }
    (cpu, hw)
}

#[test]
fn set_imm_loads_register() {
    let (cpu, _) = run_program(&[0x6A42]);
    assert_eq!(cpu.get_register(0xA), 0x42);
    assert_eq!(cpu.get_pc(), 0x202);
}

#[test]
fn add_imm_wraps_mod_256() {
    // VX=0xFF, NN=0x02 wraps to 0x01, with no flag side effect.
    let (cpu, _) = run_program(&[0x60FF, 0x7002]);
    assert_eq!(cpu.get_register(0), 0x01);
    assert_eq!(cpu.get_register(0xF), 0x00);
}

#[test]
fn add_imm_plain() {
    let (cpu, _) = run_program(&[0x6010, 0x7005]);
    assert_eq!(cpu.get_register(0), 0x15);
}

#[test]
fn assign_copies_vy() {
    let (cpu, _) = run_program(&[0x6133, 0x8010]);
    assert_eq!(cpu.get_register(0), 0x33);
}

#[test]
fn or_and_xor_exact() {
    let (cpu, _) = run_program(&[0x60F0, 0x610F, 0x8011]);
    assert_eq!(cpu.get_register(0), 0xFF);
    let (cpu, _) = run_program(&[0x60CC, 0x61AA, 0x8012]);
    assert_eq!(cpu.get_register(0), 0x88);
    let (cpu, _) = run_program(&[0x60CC, 0x61AA, 0x8013]);
    assert_eq!(cpu.get_register(0), 0x66);
}

#[test]
fn add_reg_carry_set_on_overflow() {
    // VX=0xFF, VY=0x01: result 0x00 with VF=1.
    let (cpu, _) = run_program(&[0x60FF, 0x6101, 0x8014]);
    assert_eq!(cpu.get_register(0), 0x00);
    assert_eq!(cpu.get_register(0xF), 1);
}

#[test]
fn add_reg_carry_clear_without_overflow() {
    // VX=0x01, VY=0x01: result 0x02 with VF=0.
    let (cpu, _) = run_program(&[0x6001, 0x6101, 0x8014]);
    assert_eq!(cpu.get_register(0), 0x02);
    assert_eq!(cpu.get_register(0xF), 0);
}

#[test]
fn sub_reg_borrow_clears_vf() {
    // VX=0x02, VY=0x05: 0x02 - 0x05 wraps to 0xFD and VF=0 (borrow).
    let (cpu, _) = run_program(&[0x6002, 0x6105, 0x8015]);
    assert_eq!(cpu.get_register(0), 0xFD);
    assert_eq!(cpu.get_register(0xF), 0);
}

#[test]
fn sub_reg_no_borrow_sets_vf() {
    // VX=0x05, VY=0x02: 0x03 with VF=1 (no borrow).
    let (cpu, _) = run_program(&[0x6005, 0x6102, 0x8015]);
    assert_eq!(cpu.get_register(0), 0x03);
    assert_eq!(cpu.get_register(0xF), 1);
}

#[test]
fn subn_reg_is_vy_minus_vx() {
    let (cpu, _) = run_program(&[0x6002, 0x6105, 0x8017]);
    assert_eq!(cpu.get_register(0), 0x03);
    assert_eq!(cpu.get_register(0xF), 1);
    let (cpu, _) = run_program(&[0x6005, 0x6102, 0x8017]);
    assert_eq!(cpu.get_register(0), 0xFD);
    assert_eq!(cpu.get_register(0xF), 0);
}

#[test]
fn shr_keeps_low_bit_in_vf() {
    let (cpu, _) = run_program(&[0x6005, 0x8006]);
    assert_eq!(cpu.get_register(0), 0x02);
    assert_eq!(cpu.get_register(0xF), 1);
    let (cpu, _) = run_program(&[0x6004, 0x8006]);
    assert_eq!(cpu.get_register(0), 0x02);
    assert_eq!(cpu.get_register(0xF), 0);
}

#[test]
fn shl_keeps_high_bit_in_vf() {
    let (cpu, _) = run_program(&[0x6081, 0x800E]);
    assert_eq!(cpu.get_register(0), 0x02);
    assert_eq!(cpu.get_register(0xF), 1);
    let (cpu, _) = run_program(&[0x6041, 0x800E]);
    assert_eq!(cpu.get_register(0), 0x82);
    assert_eq!(cpu.get_register(0xF), 0);
}

#[test]
fn rand_is_masked_and_seeded() {
    // With the seed fixed at zero the first generator step yields
    // (0*25173 + 13849) % 65536 = 0x3619, whose high byte is 0x36.
    let (mut cpu, mut hw) = machine();
    cpu.set_random_seed(0);
    write_word(&mut hw, 0x200, 0xC0FF);
    cpu.next_instruction(&mut hw).unwrap();
    assert_eq!(cpu.get_register(0), 0x36);

    // The mask applies: NN = 0 forces the drawn value to zero.
    let (mut cpu2, mut hw2) = machine();
    cpu2.set_random_seed(0xABCD);
    write_word(&mut hw2, 0x200, 0xC100);
    cpu2.next_instruction(&mut hw2).unwrap();
    assert_eq!(cpu2.get_register(1), 0);

    // Determinism: equal seeds draw equal bytes.
    let (mut cpu3, mut hw3) = machine();
    let (mut cpu4, mut hw4) = machine();
    cpu3.set_random_seed(0x1234);
    cpu4.set_random_seed(0x1234);
    write_word(&mut hw3, 0x200, 0xC2FF);
    write_word(&mut hw4, 0x200, 0xC2FF);
    cpu3.next_instruction(&mut hw3).unwrap();
    cpu4.next_instruction(&mut hw4).unwrap();
    assert_eq!(cpu3.get_register(2), cpu4.get_register(2));
}
