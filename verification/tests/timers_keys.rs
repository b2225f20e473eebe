//! Timers, the sound predicate, keypad skips, and the parked key wait.

use chip8::chip8::{hw_bundle, Chip_HW};
use chip8::cpu::CPU;

fn machine() -> (CPU, hw_bundle) {
    (CPU::new(), hw_bundle::default())
}

fn write_word(hw: &mut hw_bundle, addr: usize, word: u16) {
    hw.write_ram_value(addr, (word >> 8) as u8);
    hw.write_ram_value(addr + 1, (word & 0xFF) as u8);
}

#[test]
fn timer_decays_to_zero_and_stays_there() {
    // DT = 5; six ticks leave it at 0 after the fifth and the sixth.
    let (mut cpu, mut hw) = machine();
    write_word(&mut hw, 0x200, 0x6005);
    write_word(&mut hw, 0x202, 0xF015);
    cpu.next_instruction(&mut hw).unwrap();
    cpu.next_instruction(&mut hw).unwrap();
    assert_eq!(hw.get_delay_timer_count(), 5);
    for expected in [4, 3, 2, 1, 0u8] {
        hw.run();
        assert_eq!(hw.get_delay_timer_count(), expected);
    }
    hw.run();
    assert_eq!(hw.get_delay_timer_count(), 0);
}

#[test]
fn read_delay_into_register() {
    let (mut cpu, mut hw) = machine();
    write_word(&mut hw, 0x200, 0x6305);
    write_word(&mut hw, 0x202, 0xF315); // DT = 5
    write_word(&mut hw, 0x204, 0xF407); // V4 = DT
    for _ in 0..3 {
        cpu.next_instruction(&mut hw).unwrap();
    }
    assert_eq!(cpu.get_register(4), 5);
}

#[test]
fn sound_timer_drives_the_audio_predicate() {
    let (mut cpu, mut hw) = machine();
    assert!(!hw.play_sound());
    write_word(&mut hw, 0x200, 0x6002);
    write_word(&mut hw, 0x202, 0xF018); // ST = 2
    cpu.next_instruction(&mut hw).unwrap();
    cpu.next_instruction(&mut hw).unwrap();
    assert!(hw.play_sound());
    assert_eq!(hw.get_sound_timer_count(), 2);
    hw.run();
    assert!(hw.play_sound());
    hw.run();
    assert!(!hw.play_sound());
}

#[test]
fn set_key_toggles_one_flag() {
    let (_, mut hw) = machine();
    assert!(!hw.read_key(7));
    hw.set_key(7, true);
    assert!(hw.read_key(7));
    assert!(!hw.read_key(6));
    hw.set_key(7, false);
    assert!(!hw.read_key(7));
}

#[test]
fn skip_if_key_pressed() {
    let (mut cpu, mut hw) = machine();
    hw.set_key(4, true);
    write_word(&mut hw, 0x200, 0x6004);
    write_word(&mut hw, 0x202, 0xE09E); // key V0 pressed: skip
    cpu.next_instruction(&mut hw).unwrap();
    cpu.next_instruction(&mut hw).unwrap();
    assert_eq!(cpu.get_pc(), 0x206);

    let (mut cpu, mut hw) = machine();
    write_word(&mut hw, 0x200, 0x6004);
    write_word(&mut hw, 0x202, 0xE09E); // not pressed: no skip
    cpu.next_instruction(&mut hw).unwrap();
    cpu.next_instruction(&mut hw).unwrap();
    assert_eq!(cpu.get_pc(), 0x204);
}

#[test]
fn skip_if_key_not_pressed() {
    let (mut cpu, mut hw) = machine();
    write_word(&mut hw, 0x200, 0x6004);
    write_word(&mut hw, 0x202, 0xE0A1); // not pressed: skip
    cpu.next_instruction(&mut hw).unwrap();
    cpu.next_instruction(&mut hw).unwrap();
    assert_eq!(cpu.get_pc(), 0x206);

    let (mut cpu, mut hw) = machine();
    hw.set_key(4, true);
    write_word(&mut hw, 0x200, 0x6004);
    write_word(&mut hw, 0x202, 0xE0A1); // pressed: no skip
    cpu.next_instruction(&mut hw).unwrap();
    cpu.next_instruction(&mut hw).unwrap();
    assert_eq!(cpu.get_pc(), 0x204);
}

#[test]
fn key_codes_past_fifteen_count_as_not_pressed() {
    let (mut cpu, mut hw) = machine();
    write_word(&mut hw, 0x200, 0x6020); // V0 = 32: no such key
    write_word(&mut hw, 0x202, 0xE09E);
    cpu.next_instruction(&mut hw).unwrap();
    cpu.next_instruction(&mut hw).unwrap();
    assert_eq!(cpu.get_pc(), 0x204, "no skip for a key that cannot exist");
}

#[test]
fn wait_key_parks_until_a_key_arrives() {
    let (mut cpu, mut hw) = machine();
    write_word(&mut hw, 0x200, 0xF10A); // V1 = next key
    cpu.next_instruction(&mut hw).unwrap();
    assert!(cpu.is_parked());
    assert_eq!(cpu.get_pc(), 0x200);
    // repeated steps with no key move nothing
    for _ in 0..3 {
        cpu.next_instruction(&mut hw).unwrap();
        assert!(cpu.is_parked());
        assert_eq!(cpu.get_pc(), 0x200);
        assert_eq!(cpu.get_register(1), 0);
    }
    // once a key is pressed, the very next step captures it and advances
    hw.set_key(9, true);
    cpu.next_instruction(&mut hw).unwrap();
    assert!(!cpu.is_parked());
    assert_eq!(cpu.get_register(1), 9);
    assert_eq!(cpu.get_pc(), 0x202);
}

#[test]
fn wait_key_takes_the_lowest_pressed_key() {
    let (mut cpu, mut hw) = machine();
    write_word(&mut hw, 0x200, 0xF00A);
    cpu.next_instruction(&mut hw).unwrap();
    hw.set_key(0xC, true);
    hw.set_key(0x3, true);
    cpu.next_instruction(&mut hw).unwrap();
    assert_eq!(cpu.get_register(0), 0x3);
}

#[test]
fn whole_machine_run_steps_and_ticks() {
    let mut machine = Chip_HW::new();
    let rom: Vec<u8> = vec![0x60, 0x07, 0xF0, 0x15]; // V0 = 7; DT = V0
    machine.hw.load_rom(&rom);
    machine.run().unwrap();
    machine.run().unwrap();
    // the second run set DT to 7 and the same call's tick brought it to 6
    assert_eq!(machine.hw.get_delay_timer_count(), 6);
    assert_eq!(machine.get_cpu().get_pc(), 0x204);
    assert_eq!(machine.get_cpu().get_register(0), 7);
}

#[test]
fn tick_timers_is_decoupled_from_stepping() {
    let mut machine = Chip_HW::new();
    let rom: Vec<u8> = vec![0x60, 0x03, 0xF0, 0x18]; // V0 = 3; ST = V0
    machine.hw.load_rom(&rom);
    machine.step().unwrap();
    machine.step().unwrap();
    assert_eq!(machine.hw.get_sound_timer_count(), 3, "step alone must not tick");
    machine.tick_timers();
    assert_eq!(machine.hw.get_sound_timer_count(), 2);
    assert_eq!(machine.get_cpu().get_pc(), 0x204, "ticking must not step");
}
