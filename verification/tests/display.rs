//! The XOR sprite compositor, screen clearing, and pixel expansion.

use chip8::chip8::{expand_vram, hw_bundle};
use chip8::cpu::CPU;

fn machine() -> (CPU, hw_bundle) {
    (CPU::new(), hw_bundle::default())
}

fn write_word(hw: &mut hw_bundle, addr: usize, word: u16) {
    hw.write_ram_value(addr, (word >> 8) as u8);
    hw.write_ram_value(addr + 1, (word & 0xFF) as u8);
}

#[test]
fn draw_splits_unaligned_sprite_across_bytes() {
    let (mut cpu, mut hw) = machine();
    hw.write_ram_value(0x300, 0xFF); // one solid row
    write_word(&mut hw, 0x200, 0x6003); // V0 = 3 (x)
    write_word(&mut hw, 0x202, 0x6102); // V1 = 2 (y)
    write_word(&mut hw, 0x204, 0xA300); // I = 0x300
    write_word(&mut hw, 0x206, 0xD011); // draw 1 row at (V0, V1)
    for _ in 0..4 {
        cpu.next_instruction(&mut hw).unwrap();
    }
    // row lands at byte 2*8 + 0 = 16, split 3 bits in
    assert_eq!(hw.read_vram_value(16), 0xFF >> 3);
    assert_eq!(hw.read_vram_value(17), 0xFF << 5);
    assert_eq!(cpu.get_register(0xF), 0, "nothing was erased on a dark screen");
}

#[test]
fn draw_same_sprite_twice_self_erases_and_collides() {
    let (mut cpu, mut hw) = machine();
    hw.write_ram_value(0x300, 0x3C);
    hw.write_ram_value(0x301, 0x42);
    write_word(&mut hw, 0x200, 0x6005); // x = 5
    write_word(&mut hw, 0x202, 0x610A); // y = 10
    write_word(&mut hw, 0x204, 0xA300);
    write_word(&mut hw, 0x206, 0xD012); // first draw
    write_word(&mut hw, 0x208, 0xD012); // identical second draw
    for _ in 0..4 {
        cpu.next_instruction(&mut hw).unwrap();
    }
    assert_eq!(cpu.get_register(0xF), 0);
    cpu.next_instruction(&mut hw).unwrap();
    // the second draw erased every pixel the first one lit
    assert_eq!(cpu.get_register(0xF), 1);
    for a in 0..256 {
        assert_eq!(hw.read_vram_value(a), 0, "byte {a} not restored");
    }
}

#[test]
fn draw_reports_collision_only_when_a_pixel_dies() {
    let (mut cpu, mut hw) = machine();
    // two one-row sprites that do not share a set bit
    hw.write_ram_value(0x300, 0xF0);
    hw.write_ram_value(0x301, 0x0F);
    write_word(&mut hw, 0x200, 0xA300);
    write_word(&mut hw, 0x202, 0xD001); // draws 0xF0 at (0,0)
    write_word(&mut hw, 0x204, 0xA301);
    write_word(&mut hw, 0x206, 0xD001); // overlays 0x0F: no shared pixel
    for _ in 0..4 {
        cpu.next_instruction(&mut hw).unwrap();
    }
    assert_eq!(cpu.get_register(0xF), 0);
    assert_eq!(hw.read_vram_value(0), 0xFF);
}

#[test]
fn draw_clips_at_the_bottom_edge() {
    let (mut cpu, mut hw) = machine();
    hw.write_ram_value(0x300, 0xFF);
    hw.write_ram_value(0x301, 0xFF);
    write_word(&mut hw, 0x200, 0x601F); // y = 31, the last row
    write_word(&mut hw, 0x202, 0xA300);
    write_word(&mut hw, 0x204, 0xD102); // draw 2 rows at (V1, V0) = (0, 31)
    for _ in 0..3 {
        cpu.next_instruction(&mut hw).unwrap();
    }
    // x = V1 = 0, y = V0 = 31: first row lands on byte 248, second is clipped
    assert_eq!(hw.read_vram_value(248), 0xFF);
    for a in 0..248 {
        assert_eq!(hw.read_vram_value(a), 0);
    }
    assert_eq!(cpu.get_register(0xF), 0);
}

#[test]
fn draw_of_height_zero_changes_nothing() {
    let (mut cpu, mut hw) = machine();
    write_word(&mut hw, 0x200, 0xD000);
    cpu.next_instruction(&mut hw).unwrap();
    for a in 0..256 {
        assert_eq!(hw.read_vram_value(a), 0);
    }
    assert_eq!(cpu.get_register(0xF), 0);
    assert_eq!(cpu.get_pc(), 0x202);
}

#[test]
fn font_glyph_draws_from_the_builtin_table() {
    let (mut cpu, mut hw) = machine();
    write_word(&mut hw, 0x200, 0x600A); // V0 = 0xA
    write_word(&mut hw, 0x202, 0xF029); // I = glyph address of 'A'
    write_word(&mut hw, 0x204, 0x6100); // V1 = 0
    write_word(&mut hw, 0x206, 0xD115); // draw the 5-row glyph at (0, 0)
    for _ in 0..4 {
        cpu.next_instruction(&mut hw).unwrap();
    }
    assert_eq!(cpu.get_index(), 50);
    let glyph = [0xF0, 0x90, 0xF0, 0x90, 0x90];
    for (row, expected) in glyph.iter().enumerate() {
        assert_eq!(hw.read_vram_value(row * 8), *expected);
    }
}

#[test]
fn cls_darkens_every_byte() {
    let (mut cpu, mut hw) = machine();
    for a in 0..256 {
        hw.write_vram_value(a, 0x5A);
    }
    write_word(&mut hw, 0x200, 0x00E0);
    cpu.next_instruction(&mut hw).unwrap();
    for a in 0..256 {
        assert_eq!(hw.read_vram_value(a), 0);
    }
    assert_eq!(cpu.get_pc(), 0x202);
}

#[test]
fn vram_reads_past_the_screen_are_clipped_to_zero() {
    let (_, mut hw) = machine();
    hw.write_vram_value(255, 0x77);
    assert_eq!(hw.read_vram_value(255), 0x77);
    assert_eq!(hw.read_vram_value(256), 0);
    assert_eq!(hw.read_vram_value(10_000), 0);
    hw.xor_vram_value(300, 0xFF); // dropped, not wrapped
    for a in 0..255 {
        assert_eq!(hw.read_vram_value(a), 0);
    }
}

#[test]
fn expand_vram_maps_bits_to_grayscale_quads() {
    let (_, mut hw) = machine();
    hw.write_vram_value(0, 0x80); // only the very first pixel lit
    hw.write_vram_value(1, 0x01); // and pixel 15
    let pix = expand_vram(hw.get_vram());
    assert_eq!(pix.len(), 8192);
    for c in 0..4 {
        assert_eq!(pix[c], 255);
        assert_eq!(pix[4 + c], 0);
        assert_eq!(pix[15 * 4 + c], 255);
        assert_eq!(pix[16 * 4 + c], 0);
    }
}
