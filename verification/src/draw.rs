//! The display compositor: XOR sprite drawing as a pure function.
//!
//! A sprite is 8 pixels wide and `n` bytes tall and is drawn at pixel
//! position (VX, VY).  Row `r` of the sprite lands on the framebuffer byte
//! `VY*8 + VX/8 + 8*r`; when VX is not a multiple of 8 the row is split,
//! shifted right by `VX % 8` into that byte and left by `8 - VX % 8` into
//! the following one.  Writes that fall past the 256-byte framebuffer are
//! clipped: the screen does not wrap, matching the guarded framebuffer
//! accessors.  Because the two target bytes of a row are 8·k and 8·k+1
//! apart across rows, no framebuffer byte is touched by more than one row,
//! which is what makes drawing the same sprite twice a perfect eraser.

use vstd::prelude::*;

verus! {

/// The framebuffer byte index that row `r` of a sprite drawn at (`x`, `y`)
/// lands on first.
pub open spec fn drw_base(x: u8, y: u8, r: int) -> int {
    (y as int) * 8 + (x as int) / 8 + 8 * r
}

/// What row `r` of the sprite, with source byte `b`, contributes to the
/// framebuffer byte `j`: the right-shifted part in its first target byte,
/// the left-shifted spill-over in the next one when `x` is not byte-aligned,
/// and nothing anywhere else.
pub open spec fn row_into(b: u8, x: u8, y: u8, r: int, j: int) -> u8 {
    let xoff = x % 8;
    if j == drw_base(x, y, r) {
        b >> xoff
    } else if xoff != 0 && j == drw_base(x, y, r) + 1 {
        (b << ((8 - xoff) as u8)) as u8
    } else {
        0
    }
}

/// What the first `rows` sprite rows, read from RAM at index `i`, together
/// contribute to framebuffer byte `j`.
pub open spec fn drw_contrib(ram: Seq<u8>, i: u16, x: u8, y: u8, rows: int, j: int) -> u8
    decreases rows,
{
    if rows <= 0 {
        0
    } else {
        drw_contrib(ram, i, x, y, rows - 1, j) ^ row_into(ram[i + rows - 1], x, y, rows - 1, j)
    }
}

/// The framebuffer after XOR-drawing an `n`-row sprite stored at RAM
/// address `i` onto position (`x`, `y`).
pub open spec fn spec_draw_vram(vram: Seq<u8>, ram: Seq<u8>, i: u16, x: u8, y: u8, n: u8) -> Seq<
    u8,
> {
    Seq::new(256, |j: int| vram[j] ^ drw_contrib(ram, i, x, y, n as int, j))
}

/// Whether the draw erases at least one lit pixel: some framebuffer byte
/// shares a set bit with the sprite's contribution.
pub open spec fn spec_draw_collision(
    vram: Seq<u8>,
    ram: Seq<u8>,
    i: u16,
    x: u8,
    y: u8,
    n: u8,
) -> bool {
    exists|j: int|
        0 <= j < 256 && vram[j] & #[trigger] drw_contrib(ram, i, x, y, n as int, j) != 0
}

/// XOR identities the compositor proofs lean on.
pub proof fn lemma_u8_xor_basics(a: u8, b: u8)
    ensures
        a ^ 0 == a,
        0 ^ a == a,
        a & 0 == 0,
        0 & a == 0,
        (a ^ b) ^ b == a,
        (a ^ b) & b == b & !a,
        (a ^ b) & !a == b & !a,
{
    assert(a ^ 0 == a && 0 ^ a == a && a & 0 == 0 && 0 & a == 0 && (a ^ b) ^ b == a && ((a ^ b)
        & b == b & !a) && ((a ^ b) & !a == b & !a)) by (bit_vector);
}

/// A framebuffer byte that none of the first `rows` rows lands on receives
/// no contribution.
pub proof fn lemma_contrib_untouched(ram: Seq<u8>, i: u16, x: u8, y: u8, rows: int, j: int)
    requires
        forall|t: int| 0 <= t < rows ==> j != drw_base(x, y, t) && j != drw_base(x, y, t) + 1,
    ensures
        drw_contrib(ram, i, x, y, rows, j) == 0,
    decreases rows,
{
    if rows > 0 {
        lemma_contrib_untouched(ram, i, x, y, rows - 1, j);
        assert(row_into(ram[i + rows - 1], x, y, rows - 1, j) == 0);
        lemma_u8_xor_basics(0, 0);
    }
}

/// Row `r` is the only row that lands on its own two target bytes, so the
/// contribution of the rows before it is zero there.
pub proof fn lemma_contrib_before_row(ram: Seq<u8>, i: u16, x: u8, y: u8, r: int)
    requires
        0 <= r,
    ensures
        drw_contrib(ram, i, x, y, r, drw_base(x, y, r)) == 0,
        drw_contrib(ram, i, x, y, r, drw_base(x, y, r) + 1) == 0,
{
    assert forall|t: int| 0 <= t < r implies drw_base(x, y, r) != drw_base(x, y, t) && drw_base(
        x,
        y,
        r,
    ) != drw_base(x, y, t) + 1 && drw_base(x, y, r) + 1 != drw_base(x, y, t) && drw_base(x, y, r)
        + 1 != drw_base(x, y, t) + 1 by {
        assert(drw_base(x, y, r) - drw_base(x, y, t) == 8 * (r - t));
    }
    lemma_contrib_untouched(ram, i, x, y, r, drw_base(x, y, r));
    lemma_contrib_untouched(ram, i, x, y, r, drw_base(x, y, r) + 1);
}

/// Rows at or past `rows` leave the contribution of the first `rows` rows
/// alone; conversely a byte outside every row's reach stays at zero.  This
/// unfolding form is what the drawing loop's invariant steps through.
pub proof fn lemma_contrib_unfold(ram: Seq<u8>, i: u16, x: u8, y: u8, rows: int, j: int)
    requires
        rows > 0,
    ensures
        drw_contrib(ram, i, x, y, rows, j) == drw_contrib(ram, i, x, y, rows - 1, j) ^ row_into(
            ram[i + rows - 1],
            x,
            y,
            rows - 1,
            j,
        ),
{
}

} // verus!
