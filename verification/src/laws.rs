//! The laws of the machine, proved once and for all over the step function.
//!
//! Each proof function here states a guarantee of the interpreter as a
//! whole — about unknown opcodes, the XOR drawing discipline, the call
//! stack, the parked key wait, and the register/memory block transfers —
//! and Verus derives it from the transition function that
//! `CPU::next_instruction` is proved to implement.

use vstd::prelude::*;

use crate::chip8::HwState;
use crate::cpu::{
    sem_wait_key, spec_fetch, spec_fill_regs, spec_first_key, spec_step, spec_store_regs, CpuState,
};
use crate::draw::{drw_contrib, lemma_u8_xor_basics, spec_draw_collision, spec_draw_vram};
use crate::instr::{spec_decode, Chip8Error, Instr};

verus! {

/// A word that decodes to no opcode makes the step fail with
/// `UnknownOpcode`, carrying the fetch address and the word itself — never
/// a silent no-op.
pub proof fn lemma_unknown_opcode_is_fatal(c: CpuState, h: HwState)
    requires
        !c.halt,
        c.pc <= 0xFFE,
        spec_decode(spec_fetch(c, h)) is None,
    ensures
        spec_step(c, h) == Err::<(CpuState, HwState), Chip8Error>(
            Chip8Error::UnknownOpcode { pc: c.pc, word: spec_fetch(c, h) },
        ),
{
}

/// Drawing the same sprite at the same position twice restores the
/// framebuffer exactly; and the second draw reports a collision precisely
/// when the first draw lit at least one pixel that had been dark.
pub proof fn lemma_draw_self_erase(
    vram: Seq<u8>,
    ram: Seq<u8>,
    i: u16,
    x: u8,
    y: u8,
    n: u8,
    v1: Seq<u8>,
)
    requires
        vram.len() == 256,
        v1 == spec_draw_vram(vram, ram, i, x, y, n),
    ensures
        spec_draw_vram(v1, ram, i, x, y, n) == vram,
        spec_draw_collision(v1, ram, i, x, y, n) <==> (exists|j: int|
            0 <= j < 256 && #[trigger] (v1[j] & !vram[j]) != 0),
{
    assert forall|j: int| 0 <= j < 256 implies spec_draw_vram(v1, ram, i, x, y, n)[j]
        == vram[j] by {
        lemma_u8_xor_basics(vram[j], drw_contrib(ram, i, x, y, n as int, j));
    }
    assert(spec_draw_vram(v1, ram, i, x, y, n) =~= vram);
    assert forall|j: int| 0 <= j < 256 implies (v1[j] & drw_contrib(ram, i, x, y, n as int, j))
        == (v1[j] & !vram[j]) by {
        lemma_u8_xor_basics(vram[j], drw_contrib(ram, i, x, y, n as int, j));
    }
    if spec_draw_collision(v1, ram, i, x, y, n) {
        let j0 = choose|j: int|
            0 <= j < 256 && v1[j] & #[trigger] drw_contrib(ram, i, x, y, n as int, j) != 0;
        assert(v1[j0] & !vram[j0] != 0);
    }
    if exists|j: int| 0 <= j < 256 && #[trigger] (v1[j] & !vram[j]) != 0 {
        let j0 = choose|j: int| 0 <= j < 256 && #[trigger] (v1[j] & !vram[j]) != 0;
        assert(v1[j0] & drw_contrib(ram, i, x, y, n as int, j0) != 0);
    }
}

/// `CALL` then the matching `RET` restore the program counter: whatever
/// ran in between, as long as it left the pushed slot and the stack
/// pointer alone, the `RET` lands back on the address the `CALL` was
/// fetched from.
pub proof fn lemma_call_ret_round_trip(
    c: CpuState,
    h: HwState,
    c1: CpuState,
    h1: HwState,
    c2: CpuState,
    h2: HwState,
    nnn: u16,
)
    requires
        c.wf(),
        !c.halt,
        c.pc <= 0xFFE,
        spec_decode(spec_fetch(c, h)) == Some(Instr::Call(nnn)),
        c.sp < 16,
        spec_step(c, h) == Ok::<(CpuState, HwState), Chip8Error>((c1, h1)),
        !c2.halt,
        c2.pc <= 0xFFE,
        spec_decode(spec_fetch(c2, h2)) == Some(Instr::Ret),
        c2.sp == c1.sp,
        c2.stack == c1.stack,
    ensures
        spec_step(c2, h2) matches Ok(s3) && s3.0.pc == c.pc,
{
}

/// While parked on `FX0A` with no key pressed, a step moves nothing: the
/// program counter, the registers and the whole hardware stay as they
/// are.
pub proof fn lemma_parked_no_key(c: CpuState, h: HwState)
    requires
        c.halt,
        forall|k: int| 0 <= k < 16 ==> !h.keys[k],
    ensures
        spec_step(c, h) == Ok::<(CpuState, HwState), Chip8Error>((c, h)),
{
    lemma_first_key_none(h.keys, 0);
}

/// Once a key is pressed, the next parked step resumes: the lowest
/// pressed key code lands in the awaited register and the program counter
/// advances by exactly 2.
pub proof fn lemma_parked_key_resumes(c: CpuState, h: HwState, k: u8)
    requires
        c.halt,
        k < 16,
        h.keys[k as int],
        forall|j: int| 0 <= j < k ==> !h.keys[j],
    ensures
        spec_step(c, h) == Ok::<(CpuState, HwState), Chip8Error>(
            (
                CpuState {
                    regs: c.regs.update(c.halt_reg as int, k),
                    halt: false,
                    pc: (c.pc + 2) as u16,
                    ..c
                },
                h,
            ),
        ),
{
    lemma_first_key_finds(h.keys, 0, k);
}

/// Executing `FX0A` parks the machine without advancing the program
/// counter: the same instruction is then re-examined on every later step
/// until a key arrives.
pub proof fn lemma_wait_key_parks(c: CpuState, h: HwState, x: u8)
    requires
        !c.halt,
        c.pc <= 0xFFE,
        spec_decode(spec_fetch(c, h)) == Some(Instr::WaitKey(x)),
    ensures
        spec_step(c, h) == Ok::<(CpuState, HwState), Chip8Error>((sem_wait_key(c, x), h)),
        sem_wait_key(c, x).pc == c.pc,
        sem_wait_key(c, x).regs == c.regs,
{
}

/// `FX55` then `FX65` with the same X and the same untouched index
/// register reproduce the original register values exactly.
pub proof fn lemma_store_fill_round_trip(ram: Seq<u8>, regs: Seq<u8>, i: u16, x: u8)
    requires
        regs.len() == 16,
        ram.len() == 4096,
        x < 16,
        i + x + 1 <= 4096,
    ensures
        spec_fill_regs(regs, spec_store_regs(ram, regs, i, x), i, x) == regs,
{
    assert(spec_fill_regs(regs, spec_store_regs(ram, regs, i, x), i, x) =~= regs);
}

/// No pressed key at or past `k` means the scan finds nothing.
proof fn lemma_first_key_none(keys: Seq<bool>, k: int)
    requires
        forall|j: int| k <= j < 16 ==> !keys[j],
    ensures
        spec_first_key(keys, k) is None,
    decreases 16 - k,
{
    if 0 <= k < 16 {
        lemma_first_key_none(keys, k + 1);
    }
}

/// The scan from `j` finds `k` when `k` is pressed and nothing below it
/// is.
proof fn lemma_first_key_finds(keys: Seq<bool>, j: int, k: u8)
    requires
        0 <= j <= k < 16,
        keys[k as int],
        forall|t: int| j <= t < k ==> !keys[t],
    ensures
        spec_first_key(keys, j) == Some(k),
    decreases k - j,
{
    if j < k {
        lemma_first_key_finds(keys, j + 1, k);
    }
}

} // verus!
