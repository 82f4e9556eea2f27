//! The sprite-drawing opcode.
//!
//! A draw XORs an `n`-row, 8-column sprite read from memory at `I` onto
//! the framebuffer. The top-left corner is `(Vx mod 64, Vy mod 32)` and
//! sprite pixels that would fall outside the frame wrap via modulo. The
//! result is specified pointwise: a pixel flips exactly when some set
//! sprite bit lands on it, and VF reports whether any set bit landed on a
//! pixel that was already on. Because a sprite spans fewer than 32 rows
//! and fewer than 64 columns, no two sprite bits land on the same pixel.

use vstd::prelude::*;

verus! {

use crate::machine::{Chip8, CycleStatus, Fault, MachineView, wf};
use vstd::arithmetic::div_mod::{
    lemma_add_mod_noop,
    lemma_mod_bound,
    lemma_mod_multiples_vanish,
    lemma_small_mod,
};

/// Whether bit `c` (counted from the left, 0-based) of sprite row byte
/// `b` is set.
pub open spec fn sprite_row_bit(b: u8, c: int) -> bool {
    ((b >> ((7 - c) as u8)) & 1) == 1
}

/// The framebuffer index that sprite bit `(r, c)` lands on, for a sprite
/// whose top-left corner is `(sx, sy)`: rows and columns wrap modulo the
/// screen size.
pub open spec fn draw_target(sx: int, sy: int, r: int, c: int) -> int {
    ((sy + r) % 32) * 64 + ((sx + c) % 64)
}

/// Whether sprite bit `(r, c)` lies strictly before position
/// `(rows, cols)` in the row-major order the draw proceeds in.
pub open spec fn in_prefix(r: int, c: int, rows: int, cols: int) -> bool {
    0 <= r && 0 <= c < 8 && (r < rows || (r == rows && c < cols))
}

/// Whether some set sprite bit before position `(rows, cols)` lands on
/// pixel `q`.
pub open spec fn covers_upto(
    mem: Seq<u8>,
    i: int,
    sx: int,
    sy: int,
    rows: int,
    cols: int,
    q: int,
) -> bool {
    exists|r: int, c: int|
        in_prefix(r, c, rows, cols) && sprite_row_bit(mem[i + r], c) && #[trigger] draw_target(
            sx,
            sy,
            r,
            c,
        ) == q
}

/// Whether some set sprite bit before position `(rows, cols)` lands on a
/// pixel that is on in `fb`.
pub open spec fn collided_upto(
    fb: Seq<bool>,
    mem: Seq<u8>,
    i: int,
    sx: int,
    sy: int,
    rows: int,
    cols: int,
) -> bool {
    exists|r: int, c: int|
        in_prefix(r, c, rows, cols) && sprite_row_bit(mem[i + r], c) && fb[#[trigger] draw_target(
            sx,
            sy,
            r,
            c,
        )]
}

/// Whether some set bit of the whole `n`-row sprite lands on pixel `q`.
pub open spec fn sprite_covers(mem: Seq<u8>, i: int, sx: int, sy: int, n: int, q: int) -> bool {
    covers_upto(mem, i, sx, sy, n, 0, q)
}

/// The framebuffer after the draw: each pixel XORed with the sprite bit
/// that lands on it.
pub open spec fn draw_fb(fb: Seq<bool>, mem: Seq<u8>, i: int, sx: int, sy: int, n: int) -> Seq<
    bool,
> {
    Seq::new(fb.len(), |q: int| fb[q] != sprite_covers(mem, i, sx, sy, n, q))
}

/// Whether the draw turns any pixel from on to off.
pub open spec fn draw_collision(fb: Seq<bool>, mem: Seq<u8>, i: int, sx: int, sy: int, n: int) -> bool {
    collided_upto(fb, mem, i, sx, sy, n, 0)
}

/// The machine after a draw instruction: a fault if the sprite rows run
/// past the end of memory, else the XORed framebuffer with VF set to the
/// collision flag.
pub open spec fn spec_draw_result(v: MachineView, x: u8, y: u8, n: u8) -> (MachineView, CycleStatus) {
    if v.index_register + n > 4096 {
        (
            MachineView { fault: Some(Fault::MemoryOutOfBounds), ..v },
            CycleStatus::Faulted(Fault::MemoryOutOfBounds),
        )
    } else {
        let i = v.index_register as int;
        let sx = (v.registers[x as int] as int) % 64;
        let sy = (v.registers[y as int] as int) % 32;
        let coll = draw_collision(v.framebuffer, v.memory, i, sx, sy, n as int);
        (
            MachineView {
                framebuffer: draw_fb(v.framebuffer, v.memory, i, sx, sy, n as int),
                registers: v.registers.update(15, if coll { 1u8 } else { 0u8 }),
                ..v
            },
            CycleStatus::Executed,
        )
    }
}

/// Two distinct positions shifted from the same base take distinct
/// remainders, as long as they lie within one period of each other.
proof fn lemma_mod_shift_distinct(s: int, j: int, k: int, m: int)
    requires
        0 <= s,
        0 <= j < k,
        k - j < m,
    ensures
        (s + j) % m != (s + k) % m,
{
    let a = s + j;
    let d = k - j;
    lemma_mod_bound(a, m);
    let u = a % m;
    lemma_add_mod_noop(a, d, m);
    lemma_small_mod(d as nat, m as nat);
    if u + d < m {
        lemma_small_mod((u + d) as nat, m as nat);
        assert((a + d) % m == u + d);
    } else {
        lemma_mod_multiples_vanish(1, u + d - m, m);
        lemma_small_mod((u + d - m) as nat, m as nat);
        assert((a + d) % m == u + d - m);
    }
}

/// Distinct sprite bits land on distinct pixels: sprite rows span fewer
/// than 32 screen rows and sprite columns fewer than 64 screen columns.
proof fn lemma_target_injective(sx: int, sy: int, r1: int, c1: int, r2: int, c2: int)
    requires
        0 <= sx,
        0 <= sy,
        0 <= r1 < 16,
        0 <= c1 < 8,
        0 <= r2 < 16,
        0 <= c2 < 8,
        !(r1 == r2 && c1 == c2),
    ensures
        draw_target(sx, sy, r1, c1) != draw_target(sx, sy, r2, c2),
{
    lemma_mod_bound(sy + r1, 32);
    lemma_mod_bound(sy + r2, 32);
    lemma_mod_bound(sx + c1, 64);
    lemma_mod_bound(sx + c2, 64);
    if r1 != r2 {
        if r1 < r2 {
            lemma_mod_shift_distinct(sy, r1, r2, 32);
        } else {
            lemma_mod_shift_distinct(sy, r2, r1, 32);
        }
    } else {
        if c1 < c2 {
            lemma_mod_shift_distinct(sx, c1, c2, 64);
        } else {
            lemma_mod_shift_distinct(sx, c2, c1, 64);
        }
    }
}

/// Extending the processed prefix by one bit adds exactly that bit's
/// contribution to coverage and to the collision flag.
proof fn lemma_prefix_step(
    fb: Seq<bool>,
    mem: Seq<u8>,
    i: int,
    sx: int,
    sy: int,
    row: int,
    col: int,
)
    requires
        0 <= row,
        0 <= col < 8,
    ensures
        forall|q: int|
            covers_upto(mem, i, sx, sy, row, col + 1, q) == (covers_upto(
                mem,
                i,
                sx,
                sy,
                row,
                col,
                q,
            ) || (sprite_row_bit(mem[i + row], col) && draw_target(sx, sy, row, col) == q)),
        collided_upto(fb, mem, i, sx, sy, row, col + 1) == (collided_upto(
            fb,
            mem,
            i,
            sx,
            sy,
            row,
            col,
        ) || (sprite_row_bit(mem[i + row], col) && fb[draw_target(sx, sy, row, col)])),
{
    assert forall|q: int|
        covers_upto(mem, i, sx, sy, row, col + 1, q) implies (covers_upto(
        mem,
        i,
        sx,
        sy,
        row,
        col,
        q,
    ) || (sprite_row_bit(mem[i + row], col) && draw_target(sx, sy, row, col) == q)) by {
        let (r, c) = choose|r: int, c: int|
            in_prefix(r, c, row, col + 1) && sprite_row_bit(mem[i + r], c) && #[trigger] draw_target(
                sx,
                sy,
                r,
                c,
            ) == q;
        if !(r == row && c == col) {
            assert(in_prefix(r, c, row, col));
            assert(covers_upto(mem, i, sx, sy, row, col, q));
        }
    }
    assert forall|q: int|
        (covers_upto(mem, i, sx, sy, row, col, q) || (sprite_row_bit(mem[i + row], col)
            && draw_target(sx, sy, row, col) == q)) implies covers_upto(
        mem,
        i,
        sx,
        sy,
        row,
        col + 1,
        q,
    ) by {
        if covers_upto(mem, i, sx, sy, row, col, q) {
            let (r, c) = choose|r: int, c: int|
                in_prefix(r, c, row, col) && sprite_row_bit(mem[i + r], c)
                    && #[trigger] draw_target(sx, sy, r, c) == q;
            assert(in_prefix(r, c, row, col + 1));
            assert(covers_upto(mem, i, sx, sy, row, col + 1, q));
        } else {
            assert(in_prefix(row, col, row, col + 1));
            assert(covers_upto(mem, i, sx, sy, row, col + 1, q));
        }
    }
    if collided_upto(fb, mem, i, sx, sy, row, col + 1) {
        let (r, c) = choose|r: int, c: int|
            in_prefix(r, c, row, col + 1) && sprite_row_bit(mem[i + r], c)
                && fb[#[trigger] draw_target(sx, sy, r, c)];
        if !(r == row && c == col) {
            assert(in_prefix(r, c, row, col));
            assert(collided_upto(fb, mem, i, sx, sy, row, col));
        }
    }
    if collided_upto(fb, mem, i, sx, sy, row, col) {
        let (r, c) = choose|r: int, c: int|
            in_prefix(r, c, row, col) && sprite_row_bit(mem[i + r], c) && fb[#[trigger] draw_target(
                sx,
                sy,
                r,
                c,
            )];
        assert(in_prefix(r, c, row, col + 1));
        assert(collided_upto(fb, mem, i, sx, sy, row, col + 1));
    } else if sprite_row_bit(mem[i + row], col) && fb[draw_target(sx, sy, row, col)] {
        assert(in_prefix(row, col, row, col + 1));
        assert(collided_upto(fb, mem, i, sx, sy, row, col + 1));
    }
}

/// A prefix that ends at the right edge of one row is the same set of
/// bits as one that starts at the left edge of the next.
proof fn lemma_prefix_row_advance(
    fb: Seq<bool>,
    mem: Seq<u8>,
    i: int,
    sx: int,
    sy: int,
    row: int,
)
    requires
        0 <= row,
    ensures
        forall|q: int|
            covers_upto(mem, i, sx, sy, row, 8, q) == covers_upto(mem, i, sx, sy, row + 1, 0, q),
        collided_upto(fb, mem, i, sx, sy, row, 8) == collided_upto(fb, mem, i, sx, sy, row + 1, 0),
{
    assert forall|r: int, c: int| in_prefix(r, c, row, 8) == in_prefix(r, c, row + 1, 0) by {}
    assert forall|q: int|
        covers_upto(mem, i, sx, sy, row, 8, q) implies covers_upto(
        mem,
        i,
        sx,
        sy,
        row + 1,
        0,
        q,
    ) by {
        let (r, c) = choose|r: int, c: int|
            in_prefix(r, c, row, 8) && sprite_row_bit(mem[i + r], c) && #[trigger] draw_target(
                sx,
                sy,
                r,
                c,
            ) == q;
        assert(in_prefix(r, c, row + 1, 0));
        assert(covers_upto(mem, i, sx, sy, row + 1, 0, q));
    }
    assert forall|q: int|
        covers_upto(mem, i, sx, sy, row + 1, 0, q) implies covers_upto(
        mem,
        i,
        sx,
        sy,
        row,
        8,
        q,
    ) by {
        let (r, c) = choose|r: int, c: int|
            in_prefix(r, c, row + 1, 0) && sprite_row_bit(mem[i + r], c) && #[trigger] draw_target(
                sx,
                sy,
                r,
                c,
            ) == q;
        assert(in_prefix(r, c, row, 8));
        assert(covers_upto(mem, i, sx, sy, row, 8, q));
    }
    if collided_upto(fb, mem, i, sx, sy, row, 8) {
        let (r, c) = choose|r: int, c: int|
            in_prefix(r, c, row, 8) && sprite_row_bit(mem[i + r], c) && fb[#[trigger] draw_target(
                sx,
                sy,
                r,
                c,
            )];
        assert(in_prefix(r, c, row + 1, 0));
        assert(collided_upto(fb, mem, i, sx, sy, row + 1, 0));
    }
    if collided_upto(fb, mem, i, sx, sy, row + 1, 0) {
        let (r, c) = choose|r: int, c: int|
            in_prefix(r, c, row + 1, 0) && sprite_row_bit(mem[i + r], c)
                && fb[#[trigger] draw_target(sx, sy, r, c)];
        assert(in_prefix(r, c, row, 8));
        assert(collided_upto(fb, mem, i, sx, sy, row, 8));
    }
}

/// No bit strictly before `(row, col)` lands on the pixel that bit
/// `(row, col)` lands on.
proof fn lemma_current_target_untouched(
    mem: Seq<u8>,
    i: int,
    sx: int,
    sy: int,
    row: int,
    col: int,
)
    requires
        0 <= sx,
        0 <= sy,
        0 <= row < 16,
        0 <= col < 8,
    ensures
        !covers_upto(mem, i, sx, sy, row, col, draw_target(sx, sy, row, col)),
{
    if covers_upto(mem, i, sx, sy, row, col, draw_target(sx, sy, row, col)) {
        let (r, c) = choose|r: int, c: int|
            in_prefix(r, c, row, col) && sprite_row_bit(mem[i + r], c) && #[trigger] draw_target(
                sx,
                sy,
                r,
                c,
            ) == draw_target(sx, sy, row, col);
        lemma_target_injective(sx, sy, r, c, row, col);
        assert(false);
    }
}

impl Chip8 {
    /// Execute the draw instruction: XOR the sprite onto the screen and
    /// set VF to the collision flag, or fault if the sprite rows run past
    /// the end of memory.
    pub(crate) fn op_draw(&mut self, x: u8, y: u8, n: u8) -> (r: CycleStatus)
        requires
            wf(old(self)@),
            x < 16,
            y < 16,
            n < 16,
        ensures
            wf(final(self)@),
            final(self)@ == spec_draw_result(old(self)@, x, y, n).0,
            r == spec_draw_result(old(self)@, x, y, n).1,
    {
        let i = self.index_register as usize;
        if i + (n as usize) > 4096 {
            self.fault = Some(Fault::MemoryOutOfBounds);
            proof {
                assert(self@ =~= spec_draw_result(old(self)@, x, y, n).0);
            }
            return CycleStatus::Faulted(Fault::MemoryOutOfBounds);
        }
        let sx = (self.registers[x as usize] % 64) as usize;
        let sy = (self.registers[y as usize] % 32) as usize;
        let ghost v0 = self@;
        let ghost fb0 = self.framebuffer@;
        let ghost memg = self.memory@;
        let ghost ii = self.index_register as int;
        let ghost sxg = (v0.registers[x as int] as int) % 64;
        let ghost syg = (v0.registers[y as int] as int) % 32;
        proof {
            lemma_mod_bound(v0.registers[x as int] as int, 64);
            lemma_mod_bound(v0.registers[y as int] as int, 32);
        }
        let mut collided = false;
        let mut row: usize = 0;
        while row < n as usize
            invariant
                wf(v0),
                x < 16,
                y < 16,
                n < 16,
                row <= n as usize,
                i as int == ii,
                ii == v0.index_register as int,
                ii + n <= 4096,
                memg == v0.memory,
                sxg == (v0.registers[x as int] as int) % 64,
                syg == (v0.registers[y as int] as int) % 32,
                0 <= sxg < 64,
                0 <= syg < 32,
                sx == sxg,
                sy == syg,
                self.memory@ == v0.memory,
                self.registers@ == v0.registers,
                self.index_register == v0.index_register,
                self.program_counter == v0.program_counter,
                self.stack@ == v0.stack,
                self.delay_timer == v0.delay_timer,
                self.sound_timer == v0.sound_timer,
                self.keypad@ == v0.keypad,
                self.awaiting_key == v0.awaiting_key,
                self.fault == v0.fault,
                fb0 == v0.framebuffer,
                self.framebuffer@.len() == 2048,
                forall|q: int|
                    0 <= q < 2048 ==> self.framebuffer@[q] == (fb0[q] != covers_upto(
                        memg,
                        ii,
                        sxg,
                        syg,
                        row as int,
                        0,
                        q,
                    )),
                collided == collided_upto(fb0, memg, ii, sxg, syg, row as int, 0),
            decreases n as usize - row,
        {
            let byte = self.memory[i + row];
            let py = (sy + row) % 32;
            proof {
                lemma_mod_bound(syg + row as int, 32);
            }
            let mut col: usize = 0;
            while col < 8
                invariant
                    wf(v0),
                    x < 16,
                    y < 16,
                    n < 16,
                    row < n as usize,
                    col <= 8,
                    i as int == ii,
                    ii == v0.index_register as int,
                    ii + n <= 4096,
                    memg == v0.memory,
                    sxg == (v0.registers[x as int] as int) % 64,
                    syg == (v0.registers[y as int] as int) % 32,
                    0 <= sxg < 64,
                    0 <= syg < 32,
                    sx == sxg,
                    sy == syg,
                    byte == memg[ii + row],
                    py == (syg + row as int) % 32,
                    0 <= py < 32,
                    self.memory@ == v0.memory,
                    self.registers@ == v0.registers,
                    self.index_register == v0.index_register,
                    self.program_counter == v0.program_counter,
                    self.stack@ == v0.stack,
                    self.delay_timer == v0.delay_timer,
                    self.sound_timer == v0.sound_timer,
                    self.keypad@ == v0.keypad,
                    self.awaiting_key == v0.awaiting_key,
                    self.fault == v0.fault,
                    fb0 == v0.framebuffer,
                    self.framebuffer@.len() == 2048,
                    forall|q: int|
                        0 <= q < 2048 ==> self.framebuffer@[q] == (fb0[q] != covers_upto(
                            memg,
                            ii,
                            sxg,
                            syg,
                            row as int,
                            col as int,
                            q,
                        )),
                    collided == collided_upto(fb0, memg, ii, sxg, syg, row as int, col as int),
                decreases 8 - col,
            {
                let shift = (7 - col) as u8;
                let bit = ((byte >> shift) & 1) == 1;
                proof {
                    lemma_prefix_step(fb0, memg, ii, sxg, syg, row as int, col as int);
                    assert(sprite_row_bit(memg[ii + row], col as int) == bit);
                }
                if bit {
                    let px = py * 64 + (sx + col) % 64;
                    proof {
                        lemma_mod_bound(sxg + col as int, 64);
                        assert(px as int == draw_target(sxg, syg, row as int, col as int));
                        assert(px < 2048);
                        lemma_current_target_untouched(memg, ii, sxg, syg, row as int, col as int);
                        assert(self.framebuffer@[px as int] == fb0[px as int]);
                    }
                    let old_pix = self.framebuffer[px];
                    if old_pix {
                        collided = true;
                    }
                    let ghost fb_before = self.framebuffer@;
                    self.framebuffer.set(px, !old_pix);
                    proof {
                        assert forall|q: int| 0 <= q < 2048 implies self.framebuffer@[q] == (
                        fb0[q] != covers_upto(
                            memg,
                            ii,
                            sxg,
                            syg,
                            row as int,
                            col as int + 1,
                            q,
                        )) by {
                            if q == px as int {
                                assert(covers_upto(
                                    memg,
                                    ii,
                                    sxg,
                                    syg,
                                    row as int,
                                    col as int + 1,
                                    q,
                                ));
                            } else {
                                assert(self.framebuffer@[q] == fb_before[q]);
                            }
                        }
                    }
                } else {
                    proof {
                        assert forall|q: int| 0 <= q < 2048 implies self.framebuffer@[q] == (
                        fb0[q] != covers_upto(
                            memg,
                            ii,
                            sxg,
                            syg,
                            row as int,
                            col as int + 1,
                            q,
                        )) by {}
                    }
                }
                col = col + 1;
            }
            proof {
                lemma_prefix_row_advance(fb0, memg, ii, sxg, syg, row as int);
            }
            row = row + 1;
        }
        let flag: u8 = if collided {
            1
        } else {
            0
        };
        self.registers.set(15, flag);
        proof {
            assert(self.framebuffer@ =~= draw_fb(fb0, memg, ii, sxg, syg, n as int));
            assert(self@ =~= spec_draw_result(v0, x, y, n).0);
        }
        CycleStatus::Executed
    }
}

} // verus!
