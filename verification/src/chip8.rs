//! The hardware bundle: RAM, framebuffer, timers and keypad.
//!
//! `hw_bundle` owns everything outside the CPU proper: 4096 bytes of RAM
//! whose first 80 bytes hold the built-in font, the 256-byte one-bit-per-
//! pixel framebuffer, the two 8-bit countdown timers, and the 16 keypad
//! flags.  Its abstract value is an `HwState`, and every method states
//! exactly which part of that state it reads or rewrites.

use vstd::prelude::*;

use crate::cpu::{spec_cpu_init, spec_step, step_post, CpuState, CPU};
use crate::instr::Chip8Error;

verus! {

/// The built-in font table: 16 glyphs of 5 bytes each, one per hexadecimal
/// digit, stored at the bottom of RAM from construction on.
pub const FONT_SET: [u8; 80] = [
    0xF0, 0x90, 0x90, 0x90, 0xF0, // 0
    0x20, 0x60, 0x20, 0x20, 0x70, // 1
    0xF0, 0x10, 0xF0, 0x80, 0xF0, // 2
    0xF0, 0x10, 0xF0, 0x10, 0xF0, // 3
    0x90, 0x90, 0xF0, 0x10, 0x10, // 4
    0xF0, 0x80, 0xF0, 0x10, 0xF0, // 5
    0xF0, 0x80, 0xF0, 0x90, 0xF0, // 6
    0xF0, 0x10, 0x20, 0x40, 0x40, // 7
    0xF0, 0x90, 0xF0, 0x90, 0xF0, // 8
    0xF0, 0x90, 0xF0, 0x10, 0xF0, // 9
    0xF0, 0x90, 0xF0, 0x90, 0x90, // A
    0xE0, 0x90, 0xE0, 0x90, 0xE0, // B
    0xF0, 0x80, 0x80, 0x80, 0xF0, // C
    0xE0, 0x90, 0x90, 0x90, 0xE0, // D
    0xF0, 0x80, 0xF0, 0x80, 0xF0, // E
    0xF0, 0x80, 0xF0, 0x80, 0x80, // F
];

/// What one timer tick leaves behind: a non-zero count drops by one, a zero
/// count stays at zero.
pub open spec fn spec_tick(count: u8) -> u8 {
    if count > 0 {
        (count - 1) as u8
    } else {
        0
    }
}

/// One 8-bit countdown timer.
pub struct Timer {
    count: u8,
}

impl View for Timer {
    type V = u8;

    closed spec fn view(&self) -> u8 {
        self.count
    }
}

impl Timer {
    /// One tick: decrement a non-zero count by exactly one; a count of zero
    /// stays at zero until an instruction sets it again.
    pub fn update(&mut self)
        ensures
            final(self)@ == spec_tick(old(self)@),
    {
        if self.count > 0 {
            self.count = self.count - 1;
        }
    }
}

/// The byte stores: 4096 bytes of RAM and the 256-byte framebuffer.
pub struct Memory {
    ram: Vec<u8>,
    vram: Vec<u8>,
}

impl Memory {
    /// The RAM contents.
    pub closed spec fn spec_ram(&self) -> Seq<u8> {
        self.ram@
    }

    /// The framebuffer contents.
    pub closed spec fn spec_vram(&self) -> Seq<u8> {
        self.vram@
    }

    /// Fresh memory: RAM is zero except for the font table at the bottom,
    /// and the framebuffer is dark.
    pub fn default() -> (r: Memory)
        ensures
            r.spec_ram().len() == 4096,
            r.spec_vram().len() == 256,
            forall|j: int| 0 <= j < 80 ==> r.spec_ram()[j] == FONT_SET@[j],
            forall|j: int| 80 <= j < 4096 ==> r.spec_ram()[j] == 0,
            forall|j: int| 0 <= j < 256 ==> r.spec_vram()[j] == 0,
    {
        let mut ram: Vec<u8> = filled(0u8, 4096);
        let mut k: usize = 0;
        while k < 80
            invariant
                ram@.len() == 4096,
                0 <= k <= 80,
                forall|j: int| 0 <= j < k ==> ram@[j] == FONT_SET@[j],
                forall|j: int| k <= j < 4096 ==> ram@[j] == 0,
            decreases 80 - k,
        {
            ram[k] = FONT_SET[k];
            k = k + 1;
        }
        Memory { ram, vram: filled(0u8, 256) }
    }
}

/// A vector of `len` copies of `value`.
pub(crate) fn filled<T: Copy>(value: T, len: usize) -> (r: Vec<T>)
    ensures
        r@ == Seq::new(len as nat, |j: int| value),
{
    let mut r: Vec<T> = Vec::new();
    let mut k: usize = 0;
    while k < len
        invariant
            r@.len() == k,
            0 <= k <= len,
            forall|j: int| 0 <= j < k ==> r@[j] == value,
        decreases len - k,
    {
        r.push(value);
        k = k + 1;
    }
    proof {
        assert(r@ =~= Seq::new(len as nat, |j: int| value));
    }
    r
}

/// The abstract value of the hardware bundle.
#[verifier::ext_equal]
pub ghost struct HwState {
    /// The 4096 RAM bytes.
    pub ram: Seq<u8>,
    /// The 256 framebuffer bytes, row-major, most significant bit first.
    pub vram: Seq<u8>,
    /// The delay timer count.
    pub delay: u8,
    /// The sound timer count.
    pub sound: u8,
    /// The 16 key-pressed flags.
    pub keys: Seq<bool>,
}

impl HwState {
    /// The store sizes that every operation preserves.
    pub open spec fn wf(&self) -> bool {
        self.ram.len() == 4096 && self.vram.len() == 256 && self.keys.len() == 16
    }
}

/// What construction guarantees of the hardware: timers at zero, no key
/// pressed, a dark screen, and RAM zero except for the font table.
pub open spec fn hw_reset(h: HwState) -> bool {
    &&& h.wf()
    &&& h.delay == 0
    &&& h.sound == 0
    &&& forall|k: int| 0 <= k < 16 ==> !h.keys[k]
    &&& forall|j: int| 0 <= j < 80 ==> h.ram[j] == FONT_SET@[j]
    &&& forall|j: int| 80 <= j < 4096 ==> h.ram[j] == 0
    &&& forall|j: int| 0 <= j < 256 ==> h.vram[j] == 0
}

/// The hardware the CPU reads and writes: memory, framebuffer, the two
/// timers and the keypad.
#[allow(non_camel_case_types)]
pub struct hw_bundle {
    delay_timer: Timer,
    sound_timer: Timer,
    memory: Memory,
    keys: Vec<bool>,
}

impl View for hw_bundle {
    type V = HwState;

    closed spec fn view(&self) -> HwState {
        HwState {
            ram: self.memory.ram@,
            vram: self.memory.vram@,
            delay: self.delay_timer.count,
            sound: self.sound_timer.count,
            keys: self.keys@,
        }
    }
}

impl hw_bundle {
    /// Fresh hardware: both timers at zero, no key pressed, dark screen, and
    /// RAM zero except for the font table.
    pub fn default() -> (r: hw_bundle)
        ensures
            hw_reset(r@),
    {
        let mut keys: Vec<bool> = Vec::new();
        let mut k: usize = 0;
        while k < 16
            invariant
                keys@.len() == k,
                0 <= k <= 16,
                forall|j: int| 0 <= j < k ==> !keys@[j],
            decreases 16 - k,
        {
            keys.push(false);
            k = k + 1;
        }
        hw_bundle {
            delay_timer: Timer { count: 0 },
            sound_timer: Timer { count: 0 },
            memory: Memory::default(),
            keys,
        }
    }

    /// Record a key edge from the input collaborator: key `key_code` is now
    /// pressed (`true`) or released (`false`).
    pub fn set_key(&mut self, key_code: u8, pressed: bool)
        requires
            old(self)@.wf(),
            key_code < 16,
        ensures
            final(self)@ == (HwState {
                keys: old(self)@.keys.update(key_code as int, pressed),
                ..old(self)@
            }),
    {
        self.keys[key_code as usize] = pressed;
    }

    /// Read-only access to the framebuffer for the display collaborator.
    pub fn get_vram(&self) -> (r: &Vec<u8>)
        ensures
            r@ == self@.vram,
    {
        &self.memory.vram
    }

    /// The RAM byte at `address`.
    pub fn read_ram_value(&self, address: usize) -> (r: u8)
        requires
            self@.wf(),
            address < 4096,
        ensures
            r == self@.ram[address as int],
    {
        self.memory.ram[address]
    }

    /// Overwrite the RAM byte at `address`.
    pub fn write_ram_value(&mut self, address: usize, value: u8)
        requires
            old(self)@.wf(),
            address < 4096,
        ensures
            final(self)@ == (HwState {
                ram: old(self)@.ram.update(address as int, value),
                ..old(self)@
            }),
    {
        self.memory.ram[address] = value;
    }

    /// XOR `value` into the framebuffer byte at `address`; an address past
    /// the screen is clipped and the write is dropped.
    pub fn xor_vram_value(&mut self, address: usize, value: u8)
        requires
            old(self)@.wf(),
        ensures
            final(self)@ == if address < 256 {
                (HwState {
                    vram: old(self)@.vram.update(
                        address as int,
                        old(self)@.vram[address as int] ^ value,
                    ),
                    ..old(self)@
                })
            } else {
                old(self)@
            },
    {
        if address > 255 {
            return ;
        }
        let b = self.memory.vram[address];
        self.memory.vram[address] = b ^ value;
    }

    /// The framebuffer byte at `address`, or zero for an address past the
    /// screen.
    pub fn read_vram_value(&self, address: usize) -> (r: u8)
        requires
            self@.wf(),
        ensures
            r == if address < 256 {
                self@.vram[address as int]
            } else {
                0u8
            },
    {
        if address > 255 {
            0x00
        } else {
            self.memory.vram[address]
        }
    }

    /// Overwrite the framebuffer byte at `address`.
    pub fn write_vram_value(&mut self, address: usize, value: u8)
        requires
            old(self)@.wf(),
            address < 256,
        ensures
            final(self)@ == (HwState {
                vram: old(self)@.vram.update(address as int, value),
                ..old(self)@
            }),
    {
        self.memory.vram[address] = value;
    }

    /// The delay timer count.
    pub fn get_delay_timer_count(&self) -> (r: u8)
        ensures
            r == self@.delay,
    {
        self.delay_timer.count
    }

    /// The sound timer count.
    pub fn get_sound_timer_count(&self) -> (r: u8)
        ensures
            r == self@.sound,
    {
        self.sound_timer.count
    }

    /// Set the delay timer.
    pub fn set_delay_timer_count(&mut self, value: u8)
        ensures
            final(self)@ == (HwState { delay: value, ..old(self)@ }),
    {
        self.delay_timer.count = value;
    }

    /// Set the sound timer.
    pub fn set_sound_timer_count(&mut self, value: u8)
        ensures
            final(self)@ == (HwState { sound: value, ..old(self)@ }),
    {
        self.sound_timer.count = value;
    }

    /// Whether key `key` is currently pressed.
    pub fn read_key(&self, key: u8) -> (r: bool)
        requires
            self@.wf(),
            key < 16,
        ensures
            r == self@.keys[key as int],
    {
        self.keys[key as usize]
    }

    /// Whether the audio collaborator should be playing: true exactly while
    /// the sound timer is non-zero.
    pub fn play_sound(&self) -> (r: bool)
        ensures
            r == (self@.sound > 0),
    {
        self.sound_timer.count > 0
    }

    /// Copy a program image verbatim into RAM starting at 0x200.  The font
    /// region is already in place from construction, so nothing below 0x200
    /// is touched.  The loader must hand over an image that fits: the bound
    /// is a caller obligation, not a checked failure.
    pub fn load_rom(&mut self, rom: &Vec<u8>)
        requires
            old(self)@.wf(),
            rom@.len() <= 4096 - 0x200,
        ensures
            final(self)@.wf(),
            final(self)@ == (HwState {
                ram: Seq::new(
                    4096,
                    |j: int|
                        if 0x200 <= j < 0x200 + rom@.len() {
                            rom@[j - 0x200]
                        } else {
                            old(self)@.ram[j]
                        },
                ),
                ..old(self)@
            }),
    {
        let ghost pre = self@;
        let mut mem_start: usize = 0x200;
        let mut i: usize = 0;
        while i < rom.len()
            invariant
                pre.wf(),
                rom@.len() <= 4096 - 0x200,
                i <= rom@.len(),
                mem_start == 0x200 + i,
                self@ == (HwState {
                    ram: Seq::new(
                        4096,
                        |j: int|
                            if 0x200 <= j < 0x200 + i {
                                rom@[j - 0x200]
                            } else {
                                pre.ram[j]
                            },
                    ),
                    ..pre
                }),
            decreases rom@.len() - i,
        {
            self.write_ram_value(mem_start, rom[i]);
            mem_start = mem_start + 1;
            i = i + 1;
            proof {
                assert(self@.ram =~= Seq::new(
                    4096,
                    |j: int|
                        if 0x200 <= j < 0x200 + i {
                            rom@[j - 0x200]
                        } else {
                            pre.ram[j]
                        },
                ));
            }
        }
    }

    /// One timer tick, conventionally at 60 Hz: each non-zero counter drops
    /// by one and a zero counter stays at zero.
    pub fn run(&mut self)
        ensures
            final(self)@ == spec_tick_hw(old(self)@),
    {
        self.delay_timer.update();
        self.sound_timer.update();
    }
}

/// The hardware state after one timer tick.
pub open spec fn spec_tick_hw(h: HwState) -> HwState {
    HwState { delay: spec_tick(h.delay), sound: spec_tick(h.sound), ..h }
}

/// The whole machine: the CPU next to its hardware bundle.
#[allow(non_camel_case_types)]
pub struct Chip_HW {
    cpu: CPU,
    /// The hardware, open to the host for display, input and audio.
    pub hw: hw_bundle,
}

impl View for Chip_HW {
    type V = (CpuState, HwState);

    closed spec fn view(&self) -> (CpuState, HwState) {
        (self.cpu@, self.hw@)
    }
}

impl Chip_HW {
    /// A fresh machine: CPU at 0x200 and reset hardware with the font in
    /// place.  The loader copies the program in before the first step.
    pub fn new() -> (r: Chip_HW)
        ensures
            r@.0.wf(),
            r@.0 == spec_cpu_init(),
            hw_reset(r@.1),
    {
        Chip_HW { cpu: CPU::new(), hw: hw_bundle::default() }
    }

    /// Drive one instruction step: exactly one `spec_step` transition.
    pub fn step(&mut self) -> (r: Result<(), Chip8Error>)
        requires
            old(self)@.0.wf(),
            old(self)@.1.wf(),
        ensures
            final(self)@.0.wf(),
            final(self)@.1.wf(),
            step_post(
                r,
                spec_step(old(self)@.0, old(self)@.1),
                old(self)@.0,
                old(self)@.1,
                final(self)@.0,
                final(self)@.1,
            ),
    {
        self.cpu.next_instruction(&mut self.hw)
    }

    /// Drive the timer tick, decoupled from the instruction rate; the host
    /// conventionally calls this at 60 Hz.
    pub fn tick_timers(&mut self)
        ensures
            final(self)@.0 == old(self)@.0,
            final(self)@.1 == spec_tick_hw(old(self)@.1),
    {
        self.hw.run();
    }

    /// One instruction step followed by one timer tick, for a host that
    /// drives both at the same cadence.  A fatal error is surfaced at once
    /// and leaves the timers unticked.
    pub fn run(&mut self) -> (r: Result<(), Chip8Error>)
        requires
            old(self)@.0.wf(),
            old(self)@.1.wf(),
        ensures
            final(self)@.0.wf(),
            final(self)@.1.wf(),
            (match spec_step(old(self)@.0, old(self)@.1) {
                Ok(s2) => r is Ok && final(self)@.0 == s2.0 && final(self)@.1 == spec_tick_hw(
                    s2.1,
                ),
                Err(e) => r == Err::<(), Chip8Error>(e) && final(self)@.0 == old(self)@.0
                    && final(self)@.1 == old(self)@.1,
            }),
    {
        match self.cpu.next_instruction(&mut self.hw) {
            Err(e) => Err(e),
            Ok(()) => {
                self.hw.run();
                Ok(())
            },
        }
    }

    /// The CPU, read-only, for the host to inspect.
    pub fn get_cpu(&self) -> (r: &CPU)
        ensures
            r@ == self@.0,
    {
        &self.cpu
    }
}

/// Whether pixel `p` (row-major over the 64x32 grid) is lit: bit `p % 8`,
/// counted from the most significant side, of framebuffer byte `p / 8`.
pub open spec fn spec_pixel(vram: Seq<u8>, p: int) -> bool {
    (vram[p / 8] >> ((7 - (p % 8)) as u8)) & 1 == 1
}

/// Expand the 1-bit framebuffer into the four-bytes-per-pixel grayscale
/// image a host texture upload wants: every lit pixel becomes four 255
/// bytes, every dark pixel four zero bytes, row-major.
pub fn expand_vram(vram: &Vec<u8>) -> (r: Vec<u8>)
    requires
        vram@.len() == 256,
    ensures
        r@.len() == 8192,
        forall|k: int|
            0 <= k < 8192 ==> r@[k] == (if spec_pixel(vram@, k / 4) {
                255u8
            } else {
                0u8
            }),
{
    let mut r: Vec<u8> = Vec::new();
    let mut p: usize = 0;
    while p < 2048
        invariant
            vram@.len() == 256,
            0 <= p <= 2048,
            r@.len() == 4 * p,
            forall|k: int|
                0 <= k < 4 * p ==> r@[k] == (if spec_pixel(vram@, k / 4) {
                    255u8
                } else {
                    0u8
                }),
        decreases 2048 - p,
    {
        let byte = vram[p / 8];
        let shift: u8 = 7 - (p % 8) as u8;
        let value: u8 = if (byte >> shift) & 1 == 1 {
            255
        } else {
            0
        };
        r.push(value);
        r.push(value);
        r.push(value);
        r.push(value);
        p = p + 1;
        proof {
            assert forall|k: int| 0 <= k < 4 * p implies r@[k] == (if spec_pixel(vram@, k / 4) {
                255u8
            } else {
                0u8
            }) by {
                if k >= 4 * (p - 1) {
                    assert(k / 4 == p - 1);
                }
            }
        }
    }
    r
}

} // verus!
