//! The CPU: registers, call stack, and the fetch-decode-execute engine.
//!
//! The abstract machine state is a `CpuState` (registers, index register,
//! program counter, call stack, parked-key state and the pseudo-random
//! state) next to the hardware's `HwState`.  One call of `next_instruction`
//! performs exactly one transition of the mathematical step function
//! `spec_step`: it either executes one instruction, re-examines the keypad
//! while parked on `FX0A`, or fails with a fatal `Chip8Error` leaving the
//! whole state untouched.
//!
//! Documented policy choices, where common interpreters disagree:
//! - `CALL` pushes the address of the `CALL` instruction itself and `RET`
//!   pops it back unchanged, so the program counter after `RET` equals the
//!   program counter before the matching `CALL`.
//! - `FX1E` wraps the index register modulo 0x1000 and sets VF to 1 exactly
//!   when the sum passed 0xFFF.
//! - `FX55`/`FX65` leave the index register itself unchanged.
//! - Sprites are clipped at the screen edge, not wrapped.
//! - The pseudo-random source for `CXNN` is a seedable 16-bit linear
//!   congruential generator held in the CPU; `set_random_seed` injects the
//!   seed, so runs are deterministic and tests can pin the sequence.
//! - `EX9E`/`EXA1` treat a register value of 16 or more as a key that is
//!   not pressed.

use vstd::prelude::*;

use crate::chip8::{hw_bundle, HwState};
use crate::draw::{spec_draw_collision, spec_draw_vram};
use crate::instr::{decode, spec_decode, Chip8Error, Instr};

verus! {

/// The abstract CPU state.
#[verifier::ext_equal]
pub ghost struct CpuState {
    /// V0 through VF, sixteen 8-bit registers; VF doubles as the flag.
    pub regs: Seq<u8>,
    /// The index register I.
    pub index: u16,
    /// The program counter.
    pub pc: u16,
    /// The 16 return-address slots.
    pub stack: Seq<u16>,
    /// The stack pointer: number of slots in use, at most 16.
    pub sp: u8,
    /// Whether the machine is parked on `FX0A` awaiting a key.
    pub halt: bool,
    /// The register that the awaited key code will land in.
    pub halt_reg: u8,
    /// The pseudo-random generator state.
    pub rng: u16,
}

impl CpuState {
    /// Structural bounds every reachable CPU state satisfies.
    pub open spec fn wf(&self) -> bool {
        &&& self.regs.len() == 16
        &&& self.stack.len() == 16
        &&& self.sp <= 16
        &&& (self.halt ==> self.pc <= 0xFFE && self.halt_reg < 16)
    }
}

/// The state of a freshly constructed CPU: cleared registers and stack,
/// program counter at 0x200, not parked, random state seeded with zero.
pub open spec fn spec_cpu_init() -> CpuState {
    CpuState {
        regs: Seq::new(16, |j: int| 0u8),
        index: 0,
        pc: 0x200,
        stack: Seq::new(16, |j: int| 0u16),
        sp: 0,
        halt: false,
        halt_reg: 0,
        rng: 0,
    }
}

/// One step of the 16-bit linear congruential generator behind `CXNN`.
pub open spec fn spec_next_rng(s: u16) -> u16 {
    ((s * 25173 + 13849) % 0x10000) as u16
}

/// The pseudo-random byte drawn from one generator step.
pub open spec fn spec_rand_byte(s: u16) -> u8 {
    (spec_next_rng(s) >> 8) as u8
}

/// The lowest pressed key at index `k` or above, if any.
pub open spec fn spec_first_key(keys: Seq<bool>, k: int) -> Option<u8>
    decreases 16 - k,
{
    if k < 0 || k >= 16 {
        None
    } else if keys[k] {
        Some(k as u8)
    } else {
        spec_first_key(keys, k + 1)
    }
}

/// One parked step: if no key is pressed nothing moves; once some key is
/// pressed, the lowest such key code lands in the awaited register, the
/// parked state clears, and the program counter finally advances.
pub open spec fn spec_key_wait(c: CpuState, h: HwState) -> CpuState {
    match spec_first_key(h.keys, 0) {
        Option::None => c,
        Option::Some(k) => CpuState {
            regs: c.regs.update(c.halt_reg as int, k),
            halt: false,
            pc: (c.pc + 2) as u16,
            ..c
        },
    }
}

/// Whether `key` names a pressed key; codes past 15 name no key at all.
pub open spec fn spec_key_pressed(h: HwState, key: u8) -> bool {
    key < 16 && h.keys[key as int]
}

/// The first address of a RAM access starting at `base` that lies out of
/// bounds, reported in `OutOfBoundsAccess`.
pub open spec fn spec_first_oob(base: u16) -> u32 {
    if base >= 4096 {
        base as u32
    } else {
        4096
    }
}

/// The big-endian instruction word at the program counter.
pub open spec fn spec_fetch(c: CpuState, h: HwState) -> u16 {
    ((h.ram[c.pc as int] as u16) << 8) | (h.ram[c.pc + 1] as u16)
}

/// Plain advance past a 2-byte instruction.
pub open spec fn sem_advance(c: CpuState) -> CpuState {
    CpuState { pc: (c.pc + 2) as u16, ..c }
}

/// Advance, skipping the next instruction when `cond` holds.
pub open spec fn sem_skip_if(c: CpuState, cond: bool) -> CpuState {
    CpuState {
        pc: if cond {
            (c.pc + 4) as u16
        } else {
            (c.pc + 2) as u16
        },
        ..c
    }
}

/// Write `v` to VX and advance.
pub open spec fn sem_set_reg_adv(c: CpuState, x: u8, v: u8) -> CpuState {
    CpuState { regs: c.regs.update(x as int, v), pc: (c.pc + 2) as u16, ..c }
}

/// `1NNN`: jump.
pub open spec fn sem_jump(c: CpuState, nnn: u16) -> CpuState {
    CpuState { pc: nnn, ..c }
}

/// `2NNN` with a free slot: push the current program counter, jump to NNN.
pub open spec fn sem_call_push(c: CpuState, nnn: u16) -> CpuState {
    CpuState { stack: c.stack.update(c.sp as int, c.pc), sp: (c.sp + 1) as u8, pc: nnn, ..c }
}

/// `00EE` with a non-empty stack: pop into the program counter.
pub open spec fn sem_ret_pop(c: CpuState) -> CpuState {
    CpuState { sp: (c.sp - 1) as u8, pc: c.stack[c.sp - 1], ..c }
}

/// `8XY4`: wrapping add, VF = 1 exactly when the sum exceeds 255.
pub open spec fn sem_add_reg(c: CpuState, x: u8, y: u8) -> CpuState {
    let sum = c.regs[x as int] + c.regs[y as int];
    CpuState {
        regs: c.regs.update(x as int, (sum % 256) as u8).update(
            15,
            if sum > 255 {
                1u8
            } else {
                0u8
            },
        ),
        pc: (c.pc + 2) as u16,
        ..c
    }
}

/// `8XY5`: VX - VY wrapping, VF = 1 exactly when there is no borrow.
pub open spec fn sem_sub_reg(c: CpuState, x: u8, y: u8) -> CpuState {
    let vx = c.regs[x as int];
    let vy = c.regs[y as int];
    CpuState {
        regs: c.regs.update(x as int, ((vx - vy + 256) % 256) as u8).update(
            15,
            if vx >= vy {
                1u8
            } else {
                0u8
            },
        ),
        pc: (c.pc + 2) as u16,
        ..c
    }
}

/// `8XY7`: VY - VX wrapping into VX, VF = 1 exactly when there is no
/// borrow.
pub open spec fn sem_subn_reg(c: CpuState, x: u8, y: u8) -> CpuState {
    let vx = c.regs[x as int];
    let vy = c.regs[y as int];
    CpuState {
        regs: c.regs.update(x as int, ((vy - vx + 256) % 256) as u8).update(
            15,
            if vy >= vx {
                1u8
            } else {
                0u8
            },
        ),
        pc: (c.pc + 2) as u16,
        ..c
    }
}

/// `8XY6`: VF takes the shifted-out low bit, then VX shifts right.
pub open spec fn sem_shr(c: CpuState, x: u8) -> CpuState {
    let v = c.regs[x as int];
    CpuState {
        regs: c.regs.update(15, v & 1).update(x as int, v >> 1u8),
        pc: (c.pc + 2) as u16,
        ..c
    }
}

/// `8XYE`: VF records whether the top bit was set, then VX shifts left.
pub open spec fn sem_shl(c: CpuState, x: u8) -> CpuState {
    let v = c.regs[x as int];
    CpuState {
        regs: c.regs.update(
            15,
            if v & 0x80 != 0 {
                1u8
            } else {
                0u8
            },
        ).update(x as int, ((v * 2) % 256) as u8),
        pc: (c.pc + 2) as u16,
        ..c
    }
}

/// `ANNN`: load the index register.
pub open spec fn sem_set_index(c: CpuState, nnn: u16) -> CpuState {
    CpuState { index: nnn, pc: (c.pc + 2) as u16, ..c }
}

/// `BNNN`: jump to NNN displaced by V0.
pub open spec fn sem_jump_v0(c: CpuState, nnn: u16) -> CpuState {
    CpuState { pc: (nnn + c.regs[0]) as u16, ..c }
}

/// `CXNN`: draw a pseudo-random byte, mask it with NN, advance the
/// generator.
pub open spec fn sem_rand(c: CpuState, x: u8, kk: u8) -> CpuState {
    CpuState {
        regs: c.regs.update(x as int, kk & spec_rand_byte(c.rng)),
        rng: spec_next_rng(c.rng),
        pc: (c.pc + 2) as u16,
        ..c
    }
}

/// `FX1E`: add VX to I modulo 0x1000, VF = 1 exactly when the sum passed
/// 0xFFF.
pub open spec fn sem_add_index(c: CpuState, x: u8) -> CpuState {
    let sum = c.index + c.regs[x as int];
    CpuState {
        index: (sum % 0x1000) as u16,
        regs: c.regs.update(
            15,
            if sum > 0xFFF {
                1u8
            } else {
                0u8
            },
        ),
        pc: (c.pc + 2) as u16,
        ..c
    }
}

/// `FX29`: point I at the 5-byte font glyph for digit VX.
pub open spec fn sem_font_addr(c: CpuState, x: u8) -> CpuState {
    CpuState { index: (c.regs[x as int] * 5) as u16, pc: (c.pc + 2) as u16, ..c }
}

/// `FX0A` first encountered: park, remembering the target register; the
/// program counter stays put.
pub open spec fn sem_wait_key(c: CpuState, x: u8) -> CpuState {
    CpuState { halt: true, halt_reg: x, ..c }
}

/// `DXYN` successful: VF reports whether a lit pixel was erased, and the
/// program counter advances.
pub open spec fn sem_draw_flag(c: CpuState, collision: bool) -> CpuState {
    CpuState {
        regs: c.regs.update(
            15,
            if collision {
                1u8
            } else {
                0u8
            },
        ),
        pc: (c.pc + 2) as u16,
        ..c
    }
}

/// RAM after `FX33`: the hundreds, tens and ones digits of `v` at I, I+1,
/// I+2.
pub open spec fn spec_bcd_ram(ram: Seq<u8>, i: u16, v: u8) -> Seq<u8> {
    ram.update(i as int, (v / 100) as u8).update(i + 1, ((v / 10) % 10) as u8).update(
        i + 2,
        (v % 10) as u8,
    )
}

/// RAM after `FX55`: V0..=VX written starting at I, the rest untouched.
pub open spec fn spec_store_regs(ram: Seq<u8>, regs: Seq<u8>, i: u16, x: u8) -> Seq<u8> {
    Seq::new(
        ram.len(),
        |j: int|
            if i <= j <= i + x {
                regs[j - i]
            } else {
                ram[j]
            },
    )
}

/// Registers after `FX65`: V0..=VX read from RAM at I, the rest untouched.
pub open spec fn spec_fill_regs(regs: Seq<u8>, ram: Seq<u8>, i: u16, x: u8) -> Seq<u8> {
    Seq::new(
        16,
        |r: int|
            if r <= x {
                ram[i + r]
            } else {
                regs[r]
            },
    )
}

/// Operand sanity that decoding guarantees: register fields are nibbles and
/// address fields fit in 12 bits.
pub open spec fn instr_wf(ins: Instr) -> bool {
    match ins {
        Instr::Cls => true,
        Instr::Ret => true,
        Instr::Jump(nnn) => nnn <= 0xFFF,
        Instr::Call(nnn) => nnn <= 0xFFF,
        Instr::SkipEqImm(x, kk) => x < 16,
        Instr::SkipNeImm(x, kk) => x < 16,
        Instr::SkipEqReg(x, y) => x < 16 && y < 16,
        Instr::SetImm(x, kk) => x < 16,
        Instr::AddImm(x, kk) => x < 16,
        Instr::Assign(x, y) => x < 16 && y < 16,
        Instr::OrReg(x, y) => x < 16 && y < 16,
        Instr::AndReg(x, y) => x < 16 && y < 16,
        Instr::XorReg(x, y) => x < 16 && y < 16,
        Instr::AddReg(x, y) => x < 16 && y < 16,
        Instr::SubReg(x, y) => x < 16 && y < 16,
        Instr::ShrReg(x) => x < 16,
        Instr::SubnReg(x, y) => x < 16 && y < 16,
        Instr::ShlReg(x) => x < 16,
        Instr::SkipNeReg(x, y) => x < 16 && y < 16,
        Instr::SetIndex(nnn) => nnn <= 0xFFF,
        Instr::JumpV0(nnn) => nnn <= 0xFFF,
        Instr::Rand(x, kk) => x < 16,
        Instr::Draw(x, y, n) => x < 16 && y < 16 && n < 16,
        Instr::SkipKey(x) => x < 16,
        Instr::SkipNoKey(x) => x < 16,
        Instr::ReadDelay(x) => x < 16,
        Instr::WaitKey(x) => x < 16,
        Instr::SetDelay(x) => x < 16,
        Instr::SetSound(x) => x < 16,
        Instr::AddIndex(x) => x < 16,
        Instr::FontAddr(x) => x < 16,
        Instr::StoreBcd(x) => x < 16,
        Instr::StoreRegs(x) => x < 16,
        Instr::FillRegs(x) => x < 16,
    }
}

/// Decoded instructions always carry well-formed operands.
pub proof fn lemma_decode_wf(word: u16)
    ensures
        spec_decode(word) matches Option::Some(ins) ==> instr_wf(ins),
{
    crate::instr::lemma_op_field_bounds(word);
}

/// The effect of one decoded instruction on the machine state: the flat
/// transition table of the interpreter.  An error leaves the state exactly
/// as it was.
pub open spec fn spec_exec(ins: Instr, c: CpuState, h: HwState) -> Result<
    (CpuState, HwState),
    Chip8Error,
> {
    match ins {
        Instr::Cls => Ok((sem_advance(c), HwState { vram: Seq::new(256, |j: int| 0u8), ..h })),
        Instr::Ret => if c.sp == 0 {
            Err(Chip8Error::StackUnderflow)
        } else {
            Ok((sem_ret_pop(c), h))
        },
        Instr::Jump(nnn) => Ok((sem_jump(c, nnn), h)),
        Instr::Call(nnn) => if c.sp >= 16 {
            Err(Chip8Error::StackOverflow)
        } else {
            Ok((sem_call_push(c, nnn), h))
        },
        Instr::SkipEqImm(x, kk) => Ok((sem_skip_if(c, c.regs[x as int] == kk), h)),
        Instr::SkipNeImm(x, kk) => Ok((sem_skip_if(c, c.regs[x as int] != kk), h)),
        Instr::SkipEqReg(x, y) => Ok((sem_skip_if(c, c.regs[x as int] == c.regs[y as int]), h)),
        Instr::SetImm(x, kk) => Ok((sem_set_reg_adv(c, x, kk), h)),
        Instr::AddImm(x, kk) => Ok(
            (sem_set_reg_adv(c, x, ((c.regs[x as int] + kk) % 256) as u8), h),
        ),
        Instr::Assign(x, y) => Ok((sem_set_reg_adv(c, x, c.regs[y as int]), h)),
        Instr::OrReg(x, y) => Ok(
            (sem_set_reg_adv(c, x, c.regs[x as int] | c.regs[y as int]), h),
        ),
        Instr::AndReg(x, y) => Ok(
            (sem_set_reg_adv(c, x, c.regs[x as int] & c.regs[y as int]), h),
        ),
        Instr::XorReg(x, y) => Ok(
            (sem_set_reg_adv(c, x, c.regs[x as int] ^ c.regs[y as int]), h),
        ),
        Instr::AddReg(x, y) => Ok((sem_add_reg(c, x, y), h)),
        Instr::SubReg(x, y) => Ok((sem_sub_reg(c, x, y), h)),
        Instr::ShrReg(x) => Ok((sem_shr(c, x), h)),
        Instr::SubnReg(x, y) => Ok((sem_subn_reg(c, x, y), h)),
        Instr::ShlReg(x) => Ok((sem_shl(c, x), h)),
        Instr::SkipNeReg(x, y) => Ok((sem_skip_if(c, c.regs[x as int] != c.regs[y as int]), h)),
        Instr::SetIndex(nnn) => Ok((sem_set_index(c, nnn), h)),
        Instr::JumpV0(nnn) => Ok((sem_jump_v0(c, nnn), h)),
        Instr::Rand(x, kk) => Ok((sem_rand(c, x, kk), h)),
        Instr::Draw(x, y, n) => {
            let vx = c.regs[x as int];
            let vy = c.regs[y as int];
            if n > 0 && c.index + n > 4096 {
                Err(Chip8Error::OutOfBoundsAccess { addr: spec_first_oob(c.index) })
            } else {
                Ok(
                    (
                        sem_draw_flag(
                            c,
                            spec_draw_collision(h.vram, h.ram, c.index, vx, vy, n),
                        ),
                        HwState { vram: spec_draw_vram(h.vram, h.ram, c.index, vx, vy, n), ..h },
                    ),
                )
            }
        },
        Instr::SkipKey(x) => Ok((sem_skip_if(c, spec_key_pressed(h, c.regs[x as int])), h)),
        Instr::SkipNoKey(x) => Ok((sem_skip_if(c, !spec_key_pressed(h, c.regs[x as int])), h)),
        Instr::ReadDelay(x) => Ok((sem_set_reg_adv(c, x, h.delay), h)),
        Instr::WaitKey(x) => Ok((sem_wait_key(c, x), h)),
        Instr::SetDelay(x) => Ok((sem_advance(c), HwState { delay: c.regs[x as int], ..h })),
        Instr::SetSound(x) => Ok((sem_advance(c), HwState { sound: c.regs[x as int], ..h })),
        Instr::AddIndex(x) => Ok((sem_add_index(c, x), h)),
        Instr::FontAddr(x) => Ok((sem_font_addr(c, x), h)),
        Instr::StoreBcd(x) => if c.index + 3 > 4096 {
            Err(Chip8Error::OutOfBoundsAccess { addr: spec_first_oob(c.index) })
        } else {
            Ok(
                (
                    sem_advance(c),
                    HwState { ram: spec_bcd_ram(h.ram, c.index, c.regs[x as int]), ..h },
                ),
            )
        },
        Instr::StoreRegs(x) => if c.index + x + 1 > 4096 {
            Err(Chip8Error::OutOfBoundsAccess { addr: spec_first_oob(c.index) })
        } else {
            Ok(
                (
                    sem_advance(c),
                    HwState { ram: spec_store_regs(h.ram, c.regs, c.index, x), ..h },
                ),
            )
        },
        Instr::FillRegs(x) => if c.index + x + 1 > 4096 {
            Err(Chip8Error::OutOfBoundsAccess { addr: spec_first_oob(c.index) })
        } else {
            Ok(
                (
                    CpuState {
                        regs: spec_fill_regs(c.regs, h.ram, c.index, x),
                        pc: (c.pc + 2) as u16,
                        ..c
                    },
                    h,
                ),
            )
        },
    }
}

/// One whole machine step: re-examine the keypad while parked, otherwise
/// fetch, decode and execute exactly one instruction.  Every failure is
/// fatal and leaves the state untouched.
pub open spec fn spec_step(c: CpuState, h: HwState) -> Result<(CpuState, HwState), Chip8Error> {
    if c.halt {
        Ok((spec_key_wait(c, h), h))
    } else if c.pc > 0xFFE {
        Err(Chip8Error::OutOfBoundsAccess { addr: spec_first_oob(c.pc) })
    } else {
        let word = spec_fetch(c, h);
        match spec_decode(word) {
            Option::None => Err(Chip8Error::UnknownOpcode { pc: c.pc, word }),
            Option::Some(ins) => spec_exec(ins, c, h),
        }
    }
}

/// How an executable step result relates to the mathematical one: on
/// success the new state is the specified state, on failure the reported
/// error is the specified error and nothing moved.
pub open spec fn step_post(
    r: Result<(), Chip8Error>,
    spec_r: Result<(CpuState, HwState), Chip8Error>,
    c0: CpuState,
    h0: HwState,
    c1: CpuState,
    h1: HwState,
) -> bool {
    match spec_r {
        Ok(s2) => r is Ok && c1 == s2.0 && h1 == s2.1,
        Err(e) => r == Err::<(), Chip8Error>(e) && c1 == c0 && h1 == h0,
    }
}

/// The CPU proper: the register file, index register, program counter,
/// call stack, the parked-on-`FX0A` state and the pseudo-random state.
pub struct CPU {
    registers: Vec<u8>,
    address: u16,
    pc_reg: u16,
    stack: Vec<u16>,
    stackpointer: u8,
    halt: bool,
    halt_reg: u8,
    rng_state: u16,
}

impl View for CPU {
    type V = CpuState;

    closed spec fn view(&self) -> CpuState {
        CpuState {
            regs: self.registers@,
            index: self.address,
            pc: self.pc_reg,
            stack: self.stack@,
            sp: self.stackpointer,
            halt: self.halt,
            halt_reg: self.halt_reg,
            rng: self.rng_state,
        }
    }
}

impl CPU {
    /// A fresh CPU, with the program counter at the conventional program
    /// start 0x200.
    pub fn new() -> (r: CPU)
        ensures
            r@.wf(),
            r@ == spec_cpu_init(),
    {
        CPU {
            registers: crate::chip8::filled(0u8, 16),
            address: 0,
            pc_reg: 0x200,
            stack: crate::chip8::filled(0u16, 16),
            stackpointer: 0,
            halt: false,
            halt_reg: 0,
            rng_state: 0,
        }
    }

    /// Inject the seed of the pseudo-random source behind `CXNN`.
    pub fn set_random_seed(&mut self, seed: u16)
        ensures
            final(self)@ == (CpuState { rng: seed, ..old(self)@ }),
    {
        self.rng_state = seed;
    }

    /// The value of register V`r`.
    pub fn get_register(&self, r: u8) -> (v: u8)
        requires
            self@.wf(),
            r < 16,
        ensures
            v == self@.regs[r as int],
    {
        self.registers[r as usize]
    }

    /// The program counter.
    pub fn get_pc(&self) -> (v: u16)
        ensures
            v == self@.pc,
    {
        self.pc_reg
    }

    /// The index register I.
    pub fn get_index(&self) -> (v: u16)
        ensures
            v == self@.index,
    {
        self.address
    }

    /// Whether the machine is parked on `FX0A` awaiting a key.
    pub fn is_parked(&self) -> (v: bool)
        ensures
            v == self@.halt,
    {
        self.halt
    }

    /// While parked: scan the keypad and resume on the lowest pressed key.
    fn wait_for_key(&mut self, chip: &hw_bundle)
        requires
            old(self)@.wf(),
            chip@.wf(),
            old(self)@.halt,
        ensures
            final(self)@.wf(),
            final(self)@ == spec_key_wait(old(self)@, chip@),
    {
        let mut k: u8 = 0;
        while k < 16
            invariant
                self@.wf(),
                chip@.wf(),
                self@.halt,
                self@ == old(self)@,
                0 <= k <= 16,
                spec_first_key(chip@.keys, 0) == spec_first_key(chip@.keys, k as int),
            decreases 16 - k,
        {
            if chip.read_key(k) {
                assert(spec_first_key(chip@.keys, k as int) == Option::Some(k));
                self.registers[self.halt_reg as usize] = k;
                self.halt = false;
                self.pc_reg = self.pc_reg + 2;
                proof {
                    assert(self@ =~= spec_key_wait(old(self)@, chip@));
                }
                return ;
            }
            proof {
                assert(spec_first_key(chip@.keys, k as int) == spec_first_key(
                    chip@.keys,
                    k as int + 1,
                ));
            }
            k = k + 1;
        }
        assert(spec_first_key(chip@.keys, 0) is None);
    }

    /// `00E0`: darken the whole framebuffer.
    fn op_cls(&mut self, chip: &mut hw_bundle)
        requires
            old(self)@.wf(),
            old(chip)@.wf(),
            old(self)@.pc <= 0xFFE,
            !old(self)@.halt,
        ensures
            final(self)@.wf(),
            final(chip)@.wf(),
            final(self)@ == sem_advance(old(self)@),
            final(chip)@ == (HwState { vram: Seq::new(256, |j: int| 0u8), ..old(chip)@ }),
    {
        let ghost h0 = chip@;
        let mut a: usize = 0;
        while a < 256
            invariant
                chip@.wf(),
                0 <= a <= 256,
                chip@ == (HwState {
                    vram: Seq::new(
                        256,
                        |j: int|
                            if j < a {
                                0u8
                            } else {
                                h0.vram[j]
                            },
                    ),
                    ..h0
                }),
            decreases 256 - a,
        {
            chip.write_vram_value(a, 0);
            a = a + 1;
            proof {
                assert(chip@.vram =~= Seq::new(
                    256,
                    |j: int|
                        if j < a {
                            0u8
                        } else {
                            h0.vram[j]
                        },
                ));
            }
        }
        self.pc_reg = self.pc_reg + 2;
        proof {
            assert(chip@ =~= (HwState { vram: Seq::new(256, |j: int| 0u8), ..h0 }));
        }
    }

    /// `FX33`: write the decimal digits of VX to I, I+1, I+2.
    fn op_store_bcd(&mut self, chip: &mut hw_bundle, x: u8) -> (r: Result<(), Chip8Error>)
        requires
            old(self)@.wf(),
            old(chip)@.wf(),
            old(self)@.pc <= 0xFFE,
            !old(self)@.halt,
            x < 16,
        ensures
            final(self)@.wf(),
            final(chip)@.wf(),
            step_post(
                r,
                spec_exec(Instr::StoreBcd(x), old(self)@, old(chip)@),
                old(self)@,
                old(chip)@,
                final(self)@,
                final(chip)@,
            ),
    {
        let i = self.address;
        if i as usize + 3 > 4096 {
            return Err(Chip8Error::OutOfBoundsAccess { addr: first_oob_addr(i) });
        }
        let v = self.registers[x as usize];
        let hundreds = v / 100;
        let tens = (v / 10) % 10;
        let ones = v % 10;
        chip.write_ram_value(i as usize, hundreds);
        chip.write_ram_value(i as usize + 1, tens);
        chip.write_ram_value(i as usize + 2, ones);
        self.pc_reg = self.pc_reg + 2;
        proof {
            assert(chip@.ram =~= spec_bcd_ram(old(chip)@.ram, i, v));
            assert(chip@ =~= (HwState { ram: spec_bcd_ram(old(chip)@.ram, i, v), ..old(chip)@ }));
            assert(self@ =~= sem_advance(old(self)@));
        }
        Ok(())
    }

    /// `FX55`: write V0..=VX to RAM starting at I; I itself stays put.
    fn op_store_regs(&mut self, chip: &mut hw_bundle, x: u8) -> (r: Result<(), Chip8Error>)
        requires
            old(self)@.wf(),
            old(chip)@.wf(),
            old(self)@.pc <= 0xFFE,
            !old(self)@.halt,
            x < 16,
        ensures
            final(self)@.wf(),
            final(chip)@.wf(),
            step_post(
                r,
                spec_exec(Instr::StoreRegs(x), old(self)@, old(chip)@),
                old(self)@,
                old(chip)@,
                final(self)@,
                final(chip)@,
            ),
    {
        let ghost c0 = self@;
        let ghost h0 = chip@;
        let i = self.address;
        if i as usize + x as usize + 1 > 4096 {
            return Err(Chip8Error::OutOfBoundsAccess { addr: first_oob_addr(i) });
        }
        let mut t: usize = 0;
        while t <= x as usize
            invariant
                self@ == c0,
                c0.wf(),
                h0.wf(),
                chip@.wf(),
                i == c0.index,
                x < 16,
                i as int + x + 1 <= 4096,
                0 <= t <= x as int + 1,
                chip@ == (HwState {
                    ram: Seq::new(
                        4096,
                        |j: int|
                            if i <= j < i + t {
                                c0.regs[j - i]
                            } else {
                                h0.ram[j]
                            },
                    ),
                    ..h0
                }),
            decreases x as int + 1 - t,
        {
            chip.write_ram_value(i as usize + t, self.registers[t]);
            t = t + 1;
            proof {
                assert(chip@.ram =~= Seq::new(
                    4096,
                    |j: int|
                        if i <= j < i + t {
                            c0.regs[j - i]
                        } else {
                            h0.ram[j]
                        },
                ));
            }
        }
        self.pc_reg = self.pc_reg + 2;
        proof {
            assert(chip@.ram =~= spec_store_regs(h0.ram, c0.regs, i, x));
            assert(chip@ =~= (HwState { ram: spec_store_regs(h0.ram, c0.regs, i, x), ..h0 }));
            assert(self@ =~= sem_advance(c0));
        }
        Ok(())
    }

    /// `FX65`: read V0..=VX back from RAM starting at I; I itself stays
    /// put.
    fn op_fill_regs(&mut self, chip: &hw_bundle, x: u8) -> (r: Result<(), Chip8Error>)
        requires
            old(self)@.wf(),
            chip@.wf(),
            old(self)@.pc <= 0xFFE,
            !old(self)@.halt,
            x < 16,
        ensures
            final(self)@.wf(),
            step_post(
                r,
                spec_exec(Instr::FillRegs(x), old(self)@, chip@),
                old(self)@,
                chip@,
                final(self)@,
                chip@,
            ),
    {
        let ghost c0 = self@;
        let ghost h0 = chip@;
        let i = self.address;
        if i as usize + x as usize + 1 > 4096 {
            return Err(Chip8Error::OutOfBoundsAccess { addr: first_oob_addr(i) });
        }
        let mut t: usize = 0;
        while t <= x as usize
            invariant
                c0.wf(),
                h0.wf(),
                chip@ == h0,
                i == c0.index,
                x < 16,
                i as int + x + 1 <= 4096,
                0 <= t <= x as int + 1,
                self@ == (CpuState {
                    regs: Seq::new(
                        16,
                        |rr: int|
                            if rr < t {
                                h0.ram[i + rr]
                            } else {
                                c0.regs[rr]
                            },
                    ),
                    ..c0
                }),
            decreases x as int + 1 - t,
        {
            let b = chip.read_ram_value(i as usize + t);
            self.registers[t] = b;
            t = t + 1;
            proof {
                assert(self@.regs =~= Seq::new(
                    16,
                    |rr: int|
                        if rr < t {
                            h0.ram[i + rr]
                        } else {
                            c0.regs[rr]
                        },
                ));
            }
        }
        self.pc_reg = self.pc_reg + 2;
        proof {
            assert(self@.regs =~= spec_fill_regs(c0.regs, h0.ram, i, x));
            assert(self@ =~= (CpuState {
                regs: spec_fill_regs(c0.regs, h0.ram, i, x),
                pc: (c0.pc + 2) as u16,
                ..c0
            }));
        }
        Ok(())
    }
}

impl CPU {
    /// `DXYN`: XOR-draw the `n`-row sprite stored at I onto position
    /// (VX, VY), clipping at the screen edge, with VF reporting whether a
    /// lit pixel was erased.
    #[verifier::rlimit(60)]
    fn op_draw(&mut self, chip: &mut hw_bundle, x: u8, y: u8, n: u8) -> (r: Result<
        (),
        Chip8Error,
    >)
        requires
            old(self)@.wf(),
            old(chip)@.wf(),
            old(self)@.pc <= 0xFFE,
            !old(self)@.halt,
            x < 16,
            y < 16,
            n < 16,
        ensures
            final(self)@.wf(),
            final(chip)@.wf(),
            step_post(
                r,
                spec_exec(Instr::Draw(x, y, n), old(self)@, old(chip)@),
                old(self)@,
                old(chip)@,
                final(self)@,
                final(chip)@,
            ),
    {
        let ghost c0 = self@;
        let ghost h0 = chip@;
        let i = self.address;
        if n > 0 && i as usize + n as usize > 4096 {
            return Err(Chip8Error::OutOfBoundsAccess { addr: first_oob_addr(i) });
        }
        let vx = self.registers[x as usize];
        let vy = self.registers[y as usize];
        let xoff: u8 = vx % 8;
        let base0: usize = (vy as usize) * 8 + (vx as usize) / 8;
        let mut collision = false;
        let mut rr: u8 = 0;
        proof {
            assert forall|j: int| 0 <= j < 256 implies h0.vram[j] ^ crate::draw::drw_contrib(
                h0.ram,
                i,
                vx,
                vy,
                0,
                j,
            ) == h0.vram[j] && h0.vram[j] & crate::draw::drw_contrib(h0.ram, i, vx, vy, 0, j)
                == 0 by {
                crate::draw::lemma_u8_xor_basics(h0.vram[j], 0);
            }
            assert(chip@.vram =~= Seq::new(
                256,
                |j: int| h0.vram[j] ^ crate::draw::drw_contrib(h0.ram, i, vx, vy, 0 as int, j),
            ));
        }
        while rr < n
            invariant
                c0.wf(),
                h0.wf(),
                chip@.wf(),
                self@ == c0,
                i == c0.index,
                vx == c0.regs[x as int],
                vy == c0.regs[y as int],
                xoff == vx % 8,
                base0 == vy as int * 8 + vx as int / 8,
                n < 16,
                0 <= rr <= n,
                n > 0 ==> i as int + n <= 4096,
                chip@ == (HwState {
                    vram: Seq::new(
                        256,
                        |j: int|
                            h0.vram[j] ^ crate::draw::drw_contrib(
                                h0.ram,
                                i,
                                vx,
                                vy,
                                rr as int,
                                j,
                            ),
                    ),
                    ..h0
                }),
                collision == exists|j: int|
                    0 <= j < 256 && h0.vram[j] & #[trigger] crate::draw::drw_contrib(
                        h0.ram,
                        i,
                        vx,
                        vy,
                        rr as int,
                        j,
                    ) != 0,
            decreases n - rr,
        {
            let ghost vprev = chip@.vram;
            let ghost coll_prev = collision;
            let sprite = chip.read_ram_value(i as usize + rr as usize);
            let off: usize = base0 + 8 * (rr as usize);
            let src1: u8 = sprite >> xoff;
            let src2: u8 = if xoff != 0 {
                sprite << (8 - xoff)
            } else {
                0
            };
            let cur1 = chip.read_vram_value(off);
            let cur2 = chip.read_vram_value(off + 1);
            if (cur1 & src1) != 0 || (cur2 & src2) != 0 {
                collision = true;
            }
            chip.xor_vram_value(off, src1);
            chip.xor_vram_value(off + 1, src2);
            proof {
                let r_int = rr as int;
                let b = h0.ram[i + r_int];
                assert(b == sprite);
                assert(off as int == crate::draw::drw_base(vx, vy, r_int));
                crate::draw::lemma_contrib_before_row(h0.ram, i, vx, vy, r_int);
                assert(crate::draw::row_into(b, vx, vy, r_int, off as int) == src1);
                assert forall|j: int| 0 <= j < 256 implies chip@.vram[j] == h0.vram[j]
                    ^ crate::draw::drw_contrib(h0.ram, i, vx, vy, r_int + 1, j) by {
                    let cj = crate::draw::drw_contrib(h0.ram, i, vx, vy, r_int, j);
                    let rj = crate::draw::row_into(b, vx, vy, r_int, j);
                    crate::draw::lemma_contrib_unfold(h0.ram, i, vx, vy, r_int + 1, j);
                    crate::draw::lemma_u8_xor_basics(h0.vram[j], src1);
                    crate::draw::lemma_u8_xor_basics(h0.vram[j], src2);
                    crate::draw::lemma_u8_xor_basics(cj, rj);
                    crate::draw::lemma_u8_xor_basics(src1, 0);
                    crate::draw::lemma_u8_xor_basics(src2, 0);
                    if j == off as int {
                        assert(cj == 0);
                        assert(rj == src1);
                        assert(chip@.vram[j] == vprev[j] ^ src1);
                    } else if j == off + 1 {
                        assert(cj == 0);
                        assert(chip@.vram[j] == vprev[j] ^ src2);
                        if xoff != 0 {
                            assert(rj == src2);
                        } else {
                            assert(rj == 0 && src2 == 0);
                        }
                    } else {
                        assert(rj == 0);
                        assert(chip@.vram[j] == vprev[j]);
                    }
                }
                assert(chip@.vram =~= Seq::new(
                    256,
                    |j: int|
                        h0.vram[j] ^ crate::draw::drw_contrib(h0.ram, i, vx, vy, r_int + 1, j),
                ));
                // the collision flag tracks exactly the erased-pixel test
                let new_coll = exists|j: int|
                    0 <= j < 256 && h0.vram[j] & #[trigger] crate::draw::drw_contrib(
                        h0.ram,
                        i,
                        vx,
                        vy,
                        r_int + 1,
                        j,
                    ) != 0;
                assert forall|j: int|
                    0 <= j < 256 implies (h0.vram[j] & crate::draw::drw_contrib(
                    h0.ram,
                    i,
                    vx,
                    vy,
                    r_int + 1,
                    j,
                ) != 0) == (if j == off as int {
                    cur1 & src1 != 0
                } else if j == off + 1 {
                    cur2 & src2 != 0
                } else {
                    h0.vram[j] & crate::draw::drw_contrib(h0.ram, i, vx, vy, r_int, j) != 0
                }) by {
                    let cj = crate::draw::drw_contrib(h0.ram, i, vx, vy, r_int, j);
                    let rj = crate::draw::row_into(b, vx, vy, r_int, j);
                    crate::draw::lemma_contrib_unfold(h0.ram, i, vx, vy, r_int + 1, j);
                    crate::draw::lemma_u8_xor_basics(cj, rj);
                    crate::draw::lemma_u8_xor_basics(src1, h0.vram[j]);
                    crate::draw::lemma_u8_xor_basics(src2, h0.vram[j]);
                    crate::draw::lemma_u8_xor_basics(h0.vram[j], 0);
                    if j == off as int {
                        assert(cj == 0);
                        assert(rj == src1);
                        assert(cur1 == h0.vram[j]);
                    } else if j == off + 1 {
                        assert(cj == 0);
                        assert(cur2 == h0.vram[j]);
                        if xoff != 0 {
                            assert(rj == src2);
                        } else {
                            assert(rj == 0 && src2 == 0);
                        }
                    } else {
                        assert(rj == 0);
                    }
                }
                if off >= 256 {
                    assert(cur1 == 0);
                    crate::draw::lemma_u8_xor_basics(src1, 0);
                    assert(cur1 & src1 == 0);
                }
                if off + 1 >= 256 {
                    assert(cur2 == 0);
                    crate::draw::lemma_u8_xor_basics(src2, 0);
                    assert(cur2 & src2 == 0);
                }
                if collision {
                    if coll_prev {
                        let j0 = choose|j: int|
                            0 <= j < 256 && h0.vram[j] & #[trigger] crate::draw::drw_contrib(
                                h0.ram,
                                i,
                                vx,
                                vy,
                                r_int,
                                j,
                            ) != 0;
                        if j0 == off as int || j0 == off + 1 {
                            crate::draw::lemma_u8_xor_basics(h0.vram[j0], 0);
                        }
                        assert(h0.vram[j0] & crate::draw::drw_contrib(
                            h0.ram,
                            i,
                            vx,
                            vy,
                            r_int + 1,
                            j0,
                        ) != 0);
                    } else if cur1 & src1 != 0 {
                        assert(off < 256);
                        assert(h0.vram[off as int] & crate::draw::drw_contrib(
                            h0.ram,
                            i,
                            vx,
                            vy,
                            r_int + 1,
                            off as int,
                        ) != 0);
                    } else {
                        assert(off + 1 < 256);
                        assert(h0.vram[off + 1] & crate::draw::drw_contrib(
                            h0.ram,
                            i,
                            vx,
                            vy,
                            r_int + 1,
                            off + 1,
                        ) != 0);
                    }
                    assert(new_coll);
                } else {
                    assert forall|j: int|
                        0 <= j < 256 implies h0.vram[j] & crate::draw::drw_contrib(
                        h0.ram,
                        i,
                        vx,
                        vy,
                        r_int + 1,
                        j,
                    ) == 0 by {
                        if j != off as int && j != off + 1 {
                            assert(h0.vram[j] & crate::draw::drw_contrib(
                                h0.ram,
                                i,
                                vx,
                                vy,
                                r_int,
                                j,
                            ) == 0);
                        }
                    }
                    assert(!new_coll);
                }
            }
            rr = rr + 1;
        }
        self.registers[15] = if collision {
            1
        } else {
            0
        };
        self.pc_reg = self.pc_reg + 2;
        proof {
            assert(chip@.vram =~= spec_draw_vram(h0.vram, h0.ram, i, vx, vy, n));
            assert(chip@ =~= (HwState { vram: spec_draw_vram(h0.vram, h0.ram, i, vx, vy, n), ..h0 }));
            assert(collision == spec_draw_collision(h0.vram, h0.ram, i, vx, vy, n));
            assert(self@ =~= sem_draw_flag(c0, spec_draw_collision(h0.vram, h0.ram, i, vx, vy, n)));
        }
        Ok(())
    }
}

impl CPU {
    /// Execute one decoded instruction against the hardware.
    #[verifier::rlimit(60)]
    fn exec_instr(&mut self, chip: &mut hw_bundle, ins: Instr) -> (r: Result<(), Chip8Error>)
        requires
            old(self)@.wf(),
            old(chip)@.wf(),
            old(self)@.pc <= 0xFFE,
            !old(self)@.halt,
            instr_wf(ins),
        ensures
            final(self)@.wf(),
            final(chip)@.wf(),
            step_post(
                r,
                spec_exec(ins, old(self)@, old(chip)@),
                old(self)@,
                old(chip)@,
                final(self)@,
                final(chip)@,
            ),
    {
        let ghost c0 = self@;
        let ghost h0 = chip@;
        match ins {
            Instr::Cls => {
                self.op_cls(chip);
                Ok(())
            },
            Instr::Ret => {
                if self.stackpointer == 0 {
                    return Err(Chip8Error::StackUnderflow);
                }
                self.stackpointer = self.stackpointer - 1;
                self.pc_reg = self.stack[self.stackpointer as usize];
                proof {
                    assert(self@ =~= sem_ret_pop(c0));
                }
                Ok(())
            },
            Instr::Jump(nnn) => {
                self.pc_reg = nnn;
                proof {
                    assert(self@ =~= sem_jump(c0, nnn));
                }
                Ok(())
            },
            Instr::Call(nnn) => {
                if self.stackpointer >= 16 {
                    return Err(Chip8Error::StackOverflow);
                }
                self.stack[self.stackpointer as usize] = self.pc_reg;
                self.stackpointer = self.stackpointer + 1;
                self.pc_reg = nnn;
                proof {
                    assert(self@ =~= sem_call_push(c0, nnn));
                }
                Ok(())
            },
            Instr::SkipEqImm(x, kk) => {
                let cond = self.registers[x as usize] == kk;
                self.pc_reg = self.pc_reg + if cond {
                    4
                } else {
                    2
                };
                proof {
                    assert(self@ =~= sem_skip_if(c0, c0.regs[x as int] == kk));
                }
                Ok(())
            },
            Instr::SkipNeImm(x, kk) => {
                let cond = self.registers[x as usize] != kk;
                self.pc_reg = self.pc_reg + if cond {
                    4
                } else {
                    2
                };
                proof {
                    assert(self@ =~= sem_skip_if(c0, c0.regs[x as int] != kk));
                }
                Ok(())
            },
            Instr::SkipEqReg(x, y) => {
                let cond = self.registers[x as usize] == self.registers[y as usize];
                self.pc_reg = self.pc_reg + if cond {
                    4
                } else {
                    2
                };
                proof {
                    assert(self@ =~= sem_skip_if(c0, c0.regs[x as int] == c0.regs[y as int]));
                }
                Ok(())
            },
            Instr::SetImm(x, kk) => {
                self.registers[x as usize] = kk;
                self.pc_reg = self.pc_reg + 2;
                proof {
                    assert(self@ =~= sem_set_reg_adv(c0, x, kk));
                }
                Ok(())
            },
            Instr::AddImm(x, kk) => {
                let vx = self.registers[x as usize];
                let sum: u16 = vx as u16 + kk as u16;
                self.registers[x as usize] = (sum % 256) as u8;
                self.pc_reg = self.pc_reg + 2;
                proof {
                    assert(self@ =~= sem_set_reg_adv(
                        c0,
                        x,
                        ((c0.regs[x as int] + kk) % 256) as u8,
                    ));
                }
                Ok(())
            },
            Instr::Assign(x, y) => {
                let vy = self.registers[y as usize];
                self.registers[x as usize] = vy;
                self.pc_reg = self.pc_reg + 2;
                proof {
                    assert(self@ =~= sem_set_reg_adv(c0, x, c0.regs[y as int]));
                }
                Ok(())
            },
            Instr::OrReg(x, y) => {
                let v = self.registers[x as usize] | self.registers[y as usize];
                self.registers[x as usize] = v;
                self.pc_reg = self.pc_reg + 2;
                proof {
                    assert(self@ =~= sem_set_reg_adv(c0, x, c0.regs[x as int] | c0.regs[y as int]));
                }
                Ok(())
            },
            Instr::AndReg(x, y) => {
                let v = self.registers[x as usize] & self.registers[y as usize];
                self.registers[x as usize] = v;
                self.pc_reg = self.pc_reg + 2;
                proof {
                    assert(self@ =~= sem_set_reg_adv(c0, x, c0.regs[x as int] & c0.regs[y as int]));
                }
                Ok(())
            },
            Instr::XorReg(x, y) => {
                let v = self.registers[x as usize] ^ self.registers[y as usize];
                self.registers[x as usize] = v;
                self.pc_reg = self.pc_reg + 2;
                proof {
                    assert(self@ =~= sem_set_reg_adv(c0, x, c0.regs[x as int] ^ c0.regs[y as int]));
                }
                Ok(())
            },
            Instr::AddReg(x, y) => {
                let vx = self.registers[x as usize];
                let vy = self.registers[y as usize];
                let sum: u16 = vx as u16 + vy as u16;
                self.registers[x as usize] = (sum % 256) as u8;
                self.registers[15] = if sum > 255 {
                    1
                } else {
                    0
                };
                self.pc_reg = self.pc_reg + 2;
                proof {
                    assert(self@ =~= sem_add_reg(c0, x, y));
                }
                Ok(())
            },
            Instr::SubReg(x, y) => {
                let vx = self.registers[x as usize];
                let vy = self.registers[y as usize];
                let diff: u16 = vx as u16 + 256 - vy as u16;
                self.registers[x as usize] = (diff % 256) as u8;
                self.registers[15] = if vx >= vy {
                    1
                } else {
                    0
                };
                self.pc_reg = self.pc_reg + 2;
                proof {
                    assert(self@ =~= sem_sub_reg(c0, x, y));
                }
                Ok(())
            },
            Instr::ShrReg(x) => {
                let v = self.registers[x as usize];
                self.registers[15] = v & 1;
                self.registers[x as usize] = v >> 1;
                self.pc_reg = self.pc_reg + 2;
                proof {
                    assert(self@ =~= sem_shr(c0, x));
                }
                Ok(())
            },
            Instr::SubnReg(x, y) => {
                let vx = self.registers[x as usize];
                let vy = self.registers[y as usize];
                let diff: u16 = vy as u16 + 256 - vx as u16;
                self.registers[x as usize] = (diff % 256) as u8;
                self.registers[15] = if vy >= vx {
                    1
                } else {
                    0
                };
                self.pc_reg = self.pc_reg + 2;
                proof {
                    assert(self@ =~= sem_subn_reg(c0, x, y));
                }
                Ok(())
            },
            Instr::ShlReg(x) => {
                let v = self.registers[x as usize];
                self.registers[15] = if v & 0x80 != 0 {
                    1
                } else {
                    0
                };
                self.registers[x as usize] = ((v as u16 * 2) % 256) as u8;
                self.pc_reg = self.pc_reg + 2;
                proof {
                    assert(self@ =~= sem_shl(c0, x));
                }
                Ok(())
            },
            Instr::SkipNeReg(x, y) => {
                let cond = self.registers[x as usize] != self.registers[y as usize];
                self.pc_reg = self.pc_reg + if cond {
                    4
                } else {
                    2
                };
                proof {
                    assert(self@ =~= sem_skip_if(c0, c0.regs[x as int] != c0.regs[y as int]));
                }
                Ok(())
            },
            Instr::SetIndex(nnn) => {
                self.address = nnn;
                self.pc_reg = self.pc_reg + 2;
                proof {
                    assert(self@ =~= sem_set_index(c0, nnn));
                }
                Ok(())
            },
            Instr::JumpV0(nnn) => {
                let t: u16 = nnn + self.registers[0] as u16;
                self.pc_reg = t;
                proof {
                    assert(self@ =~= sem_jump_v0(c0, nnn));
                }
                Ok(())
            },
            Instr::Rand(x, kk) => {
                let ns: u32 = self.rng_state as u32 * 25173 + 13849;
                self.rng_state = (ns % 0x10000) as u16;
                let rb: u8 = (self.rng_state >> 8) as u8;
                self.registers[x as usize] = kk & rb;
                self.pc_reg = self.pc_reg + 2;
                proof {
                    assert(self@ =~= sem_rand(c0, x, kk));
                }
                Ok(())
            },
            Instr::Draw(x, y, n) => self.op_draw(chip, x, y, n),
            Instr::SkipKey(x) => {
                let key = self.registers[x as usize];
                let pressed = if key < 16 {
                    chip.read_key(key)
                } else {
                    false
                };
                self.pc_reg = self.pc_reg + if pressed {
                    4
                } else {
                    2
                };
                proof {
                    assert(pressed == spec_key_pressed(h0, c0.regs[x as int]));
                    assert(self@ =~= sem_skip_if(c0, spec_key_pressed(h0, c0.regs[x as int])));
                }
                Ok(())
            },
            Instr::SkipNoKey(x) => {
                let key = self.registers[x as usize];
                let pressed = if key < 16 {
                    chip.read_key(key)
                } else {
                    false
                };
                self.pc_reg = self.pc_reg + if pressed {
                    2
                } else {
                    4
                };
                proof {
                    assert(pressed == spec_key_pressed(h0, c0.regs[x as int]));
                    assert(self@ =~= sem_skip_if(c0, !spec_key_pressed(h0, c0.regs[x as int])));
                }
                Ok(())
            },
            Instr::ReadDelay(x) => {
                let d = chip.get_delay_timer_count();
                self.registers[x as usize] = d;
                self.pc_reg = self.pc_reg + 2;
                proof {
                    assert(self@ =~= sem_set_reg_adv(c0, x, h0.delay));
                }
                Ok(())
            },
            Instr::WaitKey(x) => {
                self.halt = true;
                self.halt_reg = x;
                proof {
                    assert(self@ =~= sem_wait_key(c0, x));
                }
                Ok(())
            },
            Instr::SetDelay(x) => {
                let v = self.registers[x as usize];
                chip.set_delay_timer_count(v);
                self.pc_reg = self.pc_reg + 2;
                proof {
                    assert(chip@ =~= (HwState { delay: c0.regs[x as int], ..h0 }));
                    assert(self@ =~= sem_advance(c0));
                }
                Ok(())
            },
            Instr::SetSound(x) => {
                let v = self.registers[x as usize];
                chip.set_sound_timer_count(v);
                self.pc_reg = self.pc_reg + 2;
                proof {
                    assert(chip@ =~= (HwState { sound: c0.regs[x as int], ..h0 }));
                    assert(self@ =~= sem_advance(c0));
                }
                Ok(())
            },
            Instr::AddIndex(x) => {
                let vx = self.registers[x as usize];
                let sum: u32 = self.address as u32 + vx as u32;
                self.address = (sum % 0x1000) as u16;
                self.registers[15] = if sum > 0xFFF {
                    1
                } else {
                    0
                };
                self.pc_reg = self.pc_reg + 2;
                proof {
                    assert(self@ =~= sem_add_index(c0, x));
                }
                Ok(())
            },
            Instr::FontAddr(x) => {
                let vx = self.registers[x as usize];
                self.address = vx as u16 * 5;
                self.pc_reg = self.pc_reg + 2;
                proof {
                    assert(self@ =~= sem_font_addr(c0, x));
                }
                Ok(())
            },
            Instr::StoreBcd(x) => self.op_store_bcd(chip, x),
            Instr::StoreRegs(x) => self.op_store_regs(chip, x),
            Instr::FillRegs(x) => self.op_fill_regs(chip, x),
        }
    }

    /// One machine step: while parked on `FX0A`, re-examine the keypad;
    /// otherwise fetch the big-endian word at the program counter, decode
    /// it, and execute exactly one instruction.  Every failure is fatal,
    /// is reported with its diagnostic context, and leaves the machine
    /// state exactly as it was.
    pub fn next_instruction(&mut self, chip: &mut hw_bundle) -> (r: Result<(), Chip8Error>)
        requires
            old(self)@.wf(),
            old(chip)@.wf(),
        ensures
            final(self)@.wf(),
            final(chip)@.wf(),
            step_post(
                r,
                spec_step(old(self)@, old(chip)@),
                old(self)@,
                old(chip)@,
                final(self)@,
                final(chip)@,
            ),
    {
        let ghost c0 = self@;
        let ghost h0 = chip@;
        if self.halt {
            self.wait_for_key(chip);
            return Ok(());
        }
        let pc = self.pc_reg;
        if pc > 0xFFE {
            return Err(Chip8Error::OutOfBoundsAccess { addr: first_oob_addr(pc) });
        }
        let b1 = chip.read_ram_value(pc as usize);
        let b2 = chip.read_ram_value(pc as usize + 1);
        let word: u16 = ((b1 as u16) << 8) | (b2 as u16);
        proof {
            assert(word == spec_fetch(c0, h0));
        }
        match decode(word) {
            Option::None => Err(Chip8Error::UnknownOpcode { pc, word }),
            Option::Some(ins) => {
                proof {
                    lemma_decode_wf(word);
                }
                self.exec_instr(chip, ins)
            },
        }
    }
}

/// The first out-of-bounds address of a RAM access starting at `base`.
fn first_oob_addr(base: u16) -> (r: u32)
    ensures
        r == spec_first_oob(base),
{
    if base >= 4096 {
        base as u32
    } else {
        4096
    }
}

} // verus!
