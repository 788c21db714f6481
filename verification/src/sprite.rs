//! The sprite engine: DRW reads an 8-pixel-wide, n-row sprite at the index
//! register and XOR-blits it into the framebuffer, wrapping each pixel
//! around both edges and accumulating a collision bit into VF.
//!
//! The drawing order is given operationally by [`blit_upto`]; the proofs
//! below characterise it pointwise — every sprite pixel lands on a distinct
//! framebuffer cell — and derive the double-draw law: blitting the same
//! sprite twice at the same coordinates restores the framebuffer and, for a
//! sprite with at least one set bit, always reports a collision.

use vstd::prelude::*;
use vstd::array::spec_array_update;
use vstd::arithmetic::div_mod::lemma_mod_equivalence;
use vstd::arithmetic::div_mod::lemma_mod_pos_bound;
use vstd::arithmetic::div_mod::lemma_small_mod;
use crate::machine::Chip8;
use crate::machine::Fault;
use crate::machine::MEMORY_SIZE;
use crate::machine::HEIGHT;
use crate::machine::WIDTH;
use crate::machine::op_x;
use crate::machine::op_y;
use crate::machine::op_n;
use crate::instructions::pc2;

verus! {

/// The framebuffer cell hit by sprite row `r`, column `c`, drawn at
/// coordinates (vx, vy): row-major position of
/// `((vy + r) mod 32, (vx + c) mod 64)`.
pub open spec fn pix(vy: int, r: int, vx: int, c: int) -> int {
    ((vy + r) % 32) * 64 + ((vx + c) % 64)
}

/// Bit `c` of a sprite row byte, counted from the left (bit 0 is the most
/// significant: `(byte >> (7 - c)) & 1`).
pub open spec fn sprite_bit(b: u8, c: int) -> u8
    recommends
        0 <= c < 8,
{
    (b >> ((7 - c) as u8)) & 1
}

/// The framebuffer and collision bit after drawing a prefix of the sprite:
/// all rows before `r` entirely, plus bits before `c` of row `r`. Row `rr`
/// of the sprite is the byte `mem[i + rr]`. The full draw of an n-row
/// sprite is the prefix (n, 0).
pub open spec fn blit_upto(
    fb0: [u8; 2048],
    mem: [u8; 4096],
    i: int,
    vx: int,
    vy: int,
    r: int,
    c: int,
) -> ([u8; 2048], u8)
    decreases r, c,
{
    if r <= 0 && c <= 0 {
        (fb0, 0)
    } else if c <= 0 {
        blit_upto(fb0, mem, i, vx, vy, r - 1, 8)
    } else {
        let prev = blit_upto(fb0, mem, i, vx, vy, r, c - 1);
        let fb = prev.0;
        let b = sprite_bit(mem@[i + r], c - 1);
        let p = pix(vy, r, vx, c - 1);
        (spec_array_update(fb, p, fb@[p] ^ b), prev.1 | (b & fb@[p]))
    }
}

/// DRW Vx,Vy,n: XOR-blit the sprite at memory[I..I+n] to (Vx, Vy), OR the
/// collision bit onto VF, raise `need_redraw`, advance past the instruction.
pub open spec fn step_drw_xyn(m: Chip8) -> Chip8
    recommends
        m.index + op_n(m.opcode) <= MEMORY_SIZE,
{
    let vx = m.registers@[op_x(m.opcode)] as int;
    let vy = m.registers@[op_y(m.opcode)] as int;
    let res = blit_upto(m.framebuffer, m.memory, m.index as int, vx, vy, op_n(m.opcode), 0);
    Chip8 {
        framebuffer: res.0,
        registers: spec_array_update(m.registers, 15, m.registers@[15] | res.1),
        need_redraw: true,
        program_counter: pc2(m),
        ..m
    }
}

/// Sprite position (rr, cc) lies in the drawn prefix (r, c): a full row
/// before `r`, or a bit before `c` of row `r` itself.
pub open spec fn processed(r: int, c: int, rr: int, cc: int) -> bool {
    0 <= rr && 0 <= cc < 8 && (rr < r || (rr == r && cc < c))
}

/// Framebuffer cell `p` is hit by some sprite position of the prefix (r, c).
pub open spec fn hit_by(vy: int, vx: int, r: int, c: int, p: int) -> bool {
    exists|rr: int, cc: int| #[trigger] processed(r, c, rr, cc) && p == pix(vy, rr, vx, cc)
}

proof fn lemma_sprite_bit_le_one(b: u8, c: int)
    requires
        0 <= c < 8,
    ensures
        sprite_bit(b, c) == 0 || sprite_bit(b, c) == 1,
{
    let s = (7 - c) as u8;
    assert((b >> s) & 1 == 0 || (b >> s) & 1 == 1) by (bit_vector);
}

proof fn lemma_coll_contrib(b: u8, v: u8)
    requires
        b == 0 || b == 1,
    ensures
        b & v == 0 || b & v == 1,
        (b & v == 1) <==> (b == 1 && v & 1 == 1),
{
    assert((b == 0 || b == 1) ==> ((b & v == 0 || b & v == 1) && ((b & v == 1) <==> (b == 1
        && v & 1 == 1)))) by (bit_vector);
}

proof fn lemma_or_bit(a: u8, b: u8)
    requires
        a == 0 || a == 1,
        b == 0 || b == 1,
    ensures
        a | b == 0 || a | b == 1,
        (a | b == 1) <==> (a == 1 || b == 1),
{
    assert((a == 0 || a == 1) && (b == 0 || b == 1) ==> ((a | b == 0 || a | b == 1) && ((a | b
        == 1) <==> (a == 1 || b == 1)))) by (bit_vector);
}

proof fn lemma_xor_twice(v: u8, b: u8)
    ensures
        (v ^ b) ^ b == v,
{
    assert((v ^ b) ^ b == v) by (bit_vector);
}

proof fn lemma_xor_flip_low(v: u8, b: u8)
    requires
        b == 1,
    ensures
        ((v ^ b) & 1 == 1) <==> (v & 1 == 0),
{
    assert(b == 1 ==> (((v ^ b) & 1 == 1) <==> (v & 1 == 0))) by (bit_vector);
}

/// Distinct sprite positions land on distinct framebuffer cells: the row
/// offsets differ by less than the screen height and the column offsets by
/// less than its width, so the per-pixel wraparound cannot collide.
pub proof fn lemma_pix_injective(vy: int, vx: int, r1: int, c1: int, r2: int, c2: int)
    requires
        0 <= vy,
        0 <= vx,
        0 <= r1 < 32,
        0 <= c1 < 64,
        0 <= r2 < 32,
        0 <= c2 < 64,
        pix(vy, r1, vx, c1) == pix(vy, r2, vx, c2),
    ensures
        r1 == r2,
        c1 == c2,
{
    lemma_mod_pos_bound(vy + r1, 32);
    lemma_mod_pos_bound(vy + r2, 32);
    lemma_mod_pos_bound(vx + c1, 64);
    lemma_mod_pos_bound(vx + c2, 64);
    let row1 = (vy + r1) % 32;
    let row2 = (vy + r2) % 32;
    let col1 = (vx + c1) % 64;
    let col2 = (vx + c2) % 64;
    assert(row1 == row2 && col1 == col2);
    lemma_mod_equivalence(vy + r1, vy + r2, 32);
    lemma_mod_equivalence(vy + r2, vy + r1, 32);
    if r1 >= r2 {
        lemma_small_mod((r1 - r2) as nat, 32);
    } else {
        lemma_small_mod((r2 - r1) as nat, 32);
    }
    lemma_mod_equivalence(vx + c1, vx + c2, 64);
    lemma_mod_equivalence(vx + c2, vx + c1, 64);
    if c1 >= c2 {
        lemma_small_mod((c1 - c2) as nat, 64);
    } else {
        lemma_small_mod((c2 - c1) as nat, 64);
    }
}

/// The blit, characterised cell by cell: every drawn sprite position XORs
/// its bit onto the one cell it hits, every other cell keeps its value, and
/// the collision bit is 1 exactly when some drawn sprite bit lands on a cell
/// whose low bit was already set.
pub proof fn lemma_blit_upto_pointwise(
    fb0: [u8; 2048],
    mem: [u8; 4096],
    i: int,
    vx: int,
    vy: int,
    r: int,
    c: int,
)
    requires
        0 <= vx,
        0 <= vy,
        0 <= r <= 15,
        0 <= c <= 8,
    ensures
        ({
            let res = blit_upto(fb0, mem, i, vx, vy, r, c);
            &&& forall|rr: int, cc: int|
                #[trigger] processed(r, c, rr, cc) ==> res.0@[pix(vy, rr, vx, cc)] == fb0@[pix(
                    vy,
                    rr,
                    vx,
                    cc,
                )] ^ sprite_bit(mem@[i + rr], cc)
            &&& forall|p: int|
                0 <= p < 2048 && !(#[trigger] hit_by(vy, vx, r, c, p)) ==> res.0@[p] == fb0@[p]
            &&& (res.1 == 0 || res.1 == 1)
            &&& ((res.1 == 1) <==> exists|rr: int, cc: int|
                #[trigger] processed(r, c, rr, cc) && sprite_bit(mem@[i + rr], cc) == 1 && fb0@[pix(
                    vy,
                    rr,
                    vx,
                    cc,
                )] & 1 == 1)
        }),
    decreases r, c,
{
    let res = blit_upto(fb0, mem, i, vx, vy, r, c);
    if r == 0 && c == 0 {
        assert(forall|rr: int, cc: int| !(#[trigger] processed(0, 0, rr, cc)));
    } else if c == 0 {
        lemma_blit_upto_pointwise(fb0, mem, i, vx, vy, r - 1, 8);
        let prev = blit_upto(fb0, mem, i, vx, vy, r - 1, 8);
        assert(res == prev);
        assert(forall|rr: int, cc: int|
            #[trigger] processed(r, 0, rr, cc) <==> processed(r - 1, 8, rr, cc));
        assert forall|p: int|
            0 <= p < 2048 && !(#[trigger] hit_by(vy, vx, r, 0, p)) implies res.0@[p] == fb0@[p] by {
            if hit_by(vy, vx, r - 1, 8, p) {
                let (rr, cc) = choose|rr: int, cc: int|
                    #[trigger] processed(r - 1, 8, rr, cc) && p == pix(vy, rr, vx, cc);
                assert(processed(r, 0, rr, cc) && p == pix(vy, rr, vx, cc));
                assert(hit_by(vy, vx, r, 0, p));
            }
        }
        if res.1 == 1 {
            let (rr, cc) = choose|rr: int, cc: int|
                #[trigger] processed(r - 1, 8, rr, cc) && sprite_bit(mem@[i + rr], cc) == 1
                    && fb0@[pix(vy, rr, vx, cc)] & 1 == 1;
            assert(processed(r, 0, rr, cc) && sprite_bit(mem@[i + rr], cc) == 1 && fb0@[pix(
                vy,
                rr,
                vx,
                cc,
            )] & 1 == 1);
        }
        if exists|rr: int, cc: int|
            #[trigger] processed(r, 0, rr, cc) && sprite_bit(mem@[i + rr], cc) == 1 && fb0@[pix(
                vy,
                rr,
                vx,
                cc,
            )] & 1 == 1 {
            let (rr, cc) = choose|rr: int, cc: int|
                #[trigger] processed(r, 0, rr, cc) && sprite_bit(mem@[i + rr], cc) == 1 && fb0@[pix(
                    vy,
                    rr,
                    vx,
                    cc,
                )] & 1 == 1;
            assert(processed(r - 1, 8, rr, cc) && sprite_bit(mem@[i + rr], cc) == 1 && fb0@[pix(
                vy,
                rr,
                vx,
                cc,
            )] & 1 == 1);
        }
    } else {
        lemma_blit_upto_pointwise(fb0, mem, i, vx, vy, r, c - 1);
        let prev = blit_upto(fb0, mem, i, vx, vy, r, c - 1);
        let b = sprite_bit(mem@[i + r], c - 1);
        let pnew = pix(vy, r, vx, c - 1);
        assert(res == (
            spec_array_update(prev.0, pnew, prev.0@[pnew] ^ b),
            prev.1 | (b & prev.0@[pnew]),
        ));
        lemma_mod_pos_bound(vy + r, 32);
        lemma_mod_pos_bound(vx + (c - 1), 64);
        assert(0 <= pnew < 2048);
        // the new position was not hit by the earlier prefix
        assert(!hit_by(vy, vx, r, c - 1, pnew)) by {
            if hit_by(vy, vx, r, c - 1, pnew) {
                let (rr, cc) = choose|rr: int, cc: int|
                    #[trigger] processed(r, c - 1, rr, cc) && pnew == pix(vy, rr, vx, cc);
                lemma_pix_injective(vy, vx, rr, cc, r, c - 1);
            }
        }
        assert(prev.0@[pnew] == fb0@[pnew]);
        // drawn cells carry their XORed bit
        assert forall|rr: int, cc: int| #[trigger]
            processed(r, c, rr, cc) implies res.0@[pix(vy, rr, vx, cc)] == fb0@[pix(
            vy,
            rr,
            vx,
            cc,
        )] ^ sprite_bit(mem@[i + rr], cc) by {
            if rr == r && cc == c - 1 {
                assert(res.0@[pnew] == prev.0@[pnew] ^ b);
            } else {
                assert(processed(r, c - 1, rr, cc));
                if pix(vy, rr, vx, cc) == pnew {
                    lemma_pix_injective(vy, vx, rr, cc, r, c - 1);
                }
                assert(res.0@[pix(vy, rr, vx, cc)] == prev.0@[pix(vy, rr, vx, cc)]);
            }
        }
        // other cells keep their value
        assert(processed(r, c, r, c - 1) && pnew == pix(vy, r, vx, c - 1));
        assert(hit_by(vy, vx, r, c, pnew));
        assert forall|p: int|
            0 <= p < 2048 && !(#[trigger] hit_by(vy, vx, r, c, p)) implies res.0@[p] == fb0@[p] by {
            if hit_by(vy, vx, r, c - 1, p) {
                let (rr, cc) = choose|rr: int, cc: int|
                    #[trigger] processed(r, c - 1, rr, cc) && p == pix(vy, rr, vx, cc);
                assert(processed(r, c, rr, cc) && p == pix(vy, rr, vx, cc));
                assert(hit_by(vy, vx, r, c, p));
            }
            assert(p != pnew);
            assert(res.0@[p] == prev.0@[p]);
        }
        // the collision bit
        lemma_sprite_bit_le_one(mem@[i + r], c - 1);
        lemma_coll_contrib(b, prev.0@[pnew]);
        lemma_or_bit(prev.1, b & prev.0@[pnew]);
        if res.1 == 1 {
            if prev.1 == 1 {
                let (rr, cc) = choose|rr: int, cc: int|
                    #[trigger] processed(r, c - 1, rr, cc) && sprite_bit(mem@[i + rr], cc) == 1
                        && fb0@[pix(vy, rr, vx, cc)] & 1 == 1;
                assert(processed(r, c, rr, cc) && sprite_bit(mem@[i + rr], cc) == 1 && fb0@[pix(
                    vy,
                    rr,
                    vx,
                    cc,
                )] & 1 == 1);
            } else {
                assert(b & prev.0@[pnew] == 1);
                assert(processed(r, c, r, c - 1) && sprite_bit(mem@[i + r], c - 1) == 1 && fb0@[pix(
                    vy,
                    r,
                    vx,
                    c - 1,
                )] & 1 == 1);
            }
        }
        if exists|rr: int, cc: int|
            #[trigger] processed(r, c, rr, cc) && sprite_bit(mem@[i + rr], cc) == 1 && fb0@[pix(
                vy,
                rr,
                vx,
                cc,
            )] & 1 == 1 {
            let (rr, cc) = choose|rr: int, cc: int|
                #[trigger] processed(r, c, rr, cc) && sprite_bit(mem@[i + rr], cc) == 1 && fb0@[pix(
                    vy,
                    rr,
                    vx,
                    cc,
                )] & 1 == 1;
            if rr == r && cc == c - 1 {
                assert(b & prev.0@[pnew] == 1);
                assert(res.1 == 1);
            } else {
                assert(processed(r, c - 1, rr, cc));
                assert(prev.1 == 1);
                assert(res.1 == 1);
            }
        }
    }
}

/// Blitting the same sprite twice at the same coordinates restores every
/// framebuffer cell, and — for a sprite with at least one set bit — the two
/// collision bits OR to 1: a position whose cell was set collides on the
/// first pass, and one whose cell was clear is set by the first pass and
/// collides on the second.
pub proof fn lemma_blit_twice(fb0: [u8; 2048], mem: [u8; 4096], i: int, vx: int, vy: int, n: int)
    requires
        0 <= vx,
        0 <= vy,
        0 <= n <= 15,
    ensures
        ({
            let first = blit_upto(fb0, mem, i, vx, vy, n, 0);
            let second = blit_upto(first.0, mem, i, vx, vy, n, 0);
            &&& second.0 == fb0
            &&& ((exists|rr: int, cc: int|
                #[trigger] processed(n, 0, rr, cc) && sprite_bit(mem@[i + rr], cc) == 1) ==> (
            first.1 | second.1) == 1)
        }),
{
    lemma_blit_upto_pointwise(fb0, mem, i, vx, vy, n, 0);
    let first = blit_upto(fb0, mem, i, vx, vy, n, 0);
    lemma_blit_upto_pointwise(first.0, mem, i, vx, vy, n, 0);
    let second = blit_upto(first.0, mem, i, vx, vy, n, 0);
    assert forall|p: int| 0 <= p < 2048 implies second.0@[p] == fb0@[p] by {
        if hit_by(vy, vx, n, 0, p) {
            let (rr, cc) = choose|rr: int, cc: int|
                #[trigger] processed(n, 0, rr, cc) && p == pix(vy, rr, vx, cc);
            let b = sprite_bit(mem@[i + rr], cc);
            assert(first.0@[p] == fb0@[p] ^ b);
            assert(second.0@[p] == first.0@[p] ^ b);
            lemma_xor_twice(fb0@[p], b);
        }
    }
    assert(second.0 =~= fb0);
    if exists|rr: int, cc: int|
        #[trigger] processed(n, 0, rr, cc) && sprite_bit(mem@[i + rr], cc) == 1 {
        let (rr, cc) = choose|rr: int, cc: int|
            #[trigger] processed(n, 0, rr, cc) && sprite_bit(mem@[i + rr], cc) == 1;
        let p = pix(vy, rr, vx, cc);
        lemma_mod_pos_bound(vy + rr, 32);
        lemma_mod_pos_bound(vx + cc, 64);
        if fb0@[p] & 1 == 1 {
            assert(first.1 == 1);
        } else {
            let v = fb0@[p];
            assert(v & 1 == 0 || v & 1 == 1) by (bit_vector);
            assert(first.0@[p] == v ^ 1);
            lemma_xor_flip_low(v, 1);
            assert(first.0@[p] & 1 == 1);
            assert(second.1 == 1);
        }
        let a1 = first.1;
        let a2 = second.1;
        assert((a1 == 0 || a1 == 1) && (a2 == 0 || a2 == 1) && (a1 == 1 || a2 == 1) ==> (a1 | a2)
            == 1) by (bit_vector);
    }
}

impl Chip8 {
    /// The sprite fetch is bounds-checked: a sprite that would be read past
    /// the end of memory is the out-of-bounds fault and draws nothing.
    pub(crate) fn drw_xyn(&mut self) -> (r: Result<(), Fault>)
        requires
            old(self).wf(),
            old(self).program_counter < MEMORY_SIZE,
        ensures
            final(self).wf(),
            old(self).index + op_n(old(self).opcode) > MEMORY_SIZE ==> r == Err::<(), Fault>(
                Fault::MemoryOutOfBounds,
            ) && *final(self) == *old(self),
            old(self).index + op_n(old(self).opcode) <= MEMORY_SIZE ==> r == Ok::<(), Fault>(())
                && *final(self) == step_drw_xyn(*old(self)),
    {
        let n: usize = self.get_nipple() as usize;
        if self.index + n > MEMORY_SIZE {
            return Err(Fault::MemoryOutOfBounds);
        }
        let x: usize = self.get_x();
        let y: usize = self.get_y();
        let vx: usize = self.registers[x] as usize;
        let vy: usize = self.registers[y] as usize;
        let mut coll: u8 = 0;
        let mut row: usize = 0;
        while row < n
            invariant
                old(self).wf(),
                old(self).program_counter < MEMORY_SIZE,
                n == op_n(old(self).opcode),
                n <= 15,
                old(self).index + n <= MEMORY_SIZE,
                vx == old(self).registers@[op_x(old(self).opcode)],
                vy == old(self).registers@[op_y(old(self).opcode)],
                row <= n,
                *self == (Chip8 { framebuffer: self.framebuffer, ..*old(self) }),
                (self.framebuffer, coll) == blit_upto(
                    old(self).framebuffer,
                    old(self).memory,
                    old(self).index as int,
                    vx as int,
                    vy as int,
                    row as int,
                    0,
                ),
            decreases n - row,
        {
            let byte: u8 = self.memory[self.index + row];
            let py: usize = (vy + row) % HEIGHT;
            let mut col: usize = 0;
            while col < 8
                invariant
                    old(self).wf(),
                    old(self).program_counter < MEMORY_SIZE,
                    n == op_n(old(self).opcode),
                    n <= 15,
                    old(self).index + n <= MEMORY_SIZE,
                    vx == old(self).registers@[op_x(old(self).opcode)],
                    vy == old(self).registers@[op_y(old(self).opcode)],
                    row < n,
                    col <= 8,
                    byte == old(self).memory@[old(self).index + row],
                    py == (vy + row) % 32,
                    *self == (Chip8 { framebuffer: self.framebuffer, ..*old(self) }),
                    (self.framebuffer, coll) == blit_upto(
                        old(self).framebuffer,
                        old(self).memory,
                        old(self).index as int,
                        vx as int,
                        vy as int,
                        row as int,
                        col as int,
                    ),
                decreases 8 - col,
            {
                let ghost fb_before = self.framebuffer;
                let ghost coll_before = coll;
                let bit: u8 = (byte >> ((7 - col) as u8)) & 1;
                let px: usize = (vx + col) % WIDTH;
                let p: usize = py * WIDTH + px;
                coll = coll | (bit & self.framebuffer[p]);
                self.framebuffer[p] = self.framebuffer[p] ^ bit;
                col = col + 1;
                proof {
                    assert(bit == sprite_bit(
                        old(self).memory@[old(self).index + row],
                        col - 1,
                    ));
                    assert(p == pix(vy as int, row as int, vx as int, col - 1));
                    assert((self.framebuffer, coll) == blit_upto(
                        old(self).framebuffer,
                        old(self).memory,
                        old(self).index as int,
                        vx as int,
                        vy as int,
                        row as int,
                        col as int,
                    ));
                }
            }
            row = row + 1;
            proof {
                assert(blit_upto(
                    old(self).framebuffer,
                    old(self).memory,
                    old(self).index as int,
                    vx as int,
                    vy as int,
                    row as int,
                    0,
                ) == blit_upto(
                    old(self).framebuffer,
                    old(self).memory,
                    old(self).index as int,
                    vx as int,
                    vy as int,
                    row - 1,
                    8,
                ));
            }
        }
        self.registers[0xF] = self.registers[0xF] | coll;
        self.need_redraw = true;
        self.inc_pc();
        proof {
            assert(*self =~= step_drw_xyn(*old(self)));
        }
        Ok(())
    }
}

} // verus!
