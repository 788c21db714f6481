//! Properties that relate several instructions or several cycles:
//! call/return pairing, the key-wait state machine, and drawing the same
//! sprite twice.

use vstd::prelude::*;
use crate::machine::Chip8;
use crate::machine::Fault;
use crate::machine::MEMORY_SIZE;
use crate::machine::STACK_SIZE;
use crate::machine::spec_fetch;
use crate::machine::op_x;
use crate::machine::op_y;
use crate::machine::op_n;
use crate::machine::lemma_op_fields;
use crate::instructions::step_call_addr;
use crate::instructions::step_ret;
use crate::instructions::step_ld_vxk;
use crate::instructions::first_pressed;
use crate::sprite::step_drw_xyn;
use crate::sprite::blit_upto;
use crate::sprite::sprite_bit;
use crate::sprite::processed;
use crate::sprite::lemma_blit_twice;
use crate::step::spec_cycle;
use crate::step::spec_dispatch;
use crate::step::apply_tick;
use crate::step::tick;

verus! {

/// A call at address P pushes P itself, and the matching return resumes at
/// P + 2 — however much execution lies between, provided it has restored
/// the stack pointer and left the saved frame alone (which balanced
/// call/return pairs do).
pub proof fn lemma_call_then_ret(m: Chip8, between: Chip8)
    requires
        m.stack_pointer < STACK_SIZE,
        m.program_counter < MEMORY_SIZE,
        between.stack_pointer == step_call_addr(m).stack_pointer,
        between.stack == step_call_addr(m).stack,
    ensures
        step_ret(between).program_counter == m.program_counter + 2,
{
    assert(step_call_addr(m).stack@[m.stack_pointer as int] == m.program_counter);
}

/// Ranges of the first-pressed-key scan: the result is the least pressed
/// index at or above `i`, or 16 when no key at or above `i` is pressed.
pub proof fn lemma_first_pressed_props(keys: [bool; 16], i: int)
    requires
        0 <= i <= 16,
    ensures
        i <= first_pressed(keys, i) <= 16,
        first_pressed(keys, i) < 16 ==> keys@[first_pressed(keys, i)],
        forall|j: int| i <= j < first_pressed(keys, i) && j < 16 ==> !keys@[j],
    decreases 16 - i,
{
    if i < 16 && !keys@[i] {
        lemma_first_pressed_props(keys, i + 1);
    }
}

/// While the machine sits on a key-load instruction and no key is pressed,
/// a cycle succeeds but freezes everything: the program counter stays on
/// the instruction, the registers and both timers keep their values, and
/// the machine is left in the waiting state.
pub proof fn lemma_key_wait_freezes(pre: Chip8)
    requires
        pre.program_counter + 1 < MEMORY_SIZE,
        spec_fetch(pre) & 0xF0FF == 0xF00A,
        forall|k: int| 0 <= k < 16 ==> !pre.keys@[k],
    ensures
        ({
            let (post, r) = spec_cycle(pre);
            &&& r == Ok::<(), Fault>(())
            &&& post == (Chip8 { opcode: spec_fetch(pre), wait_for_keys: true, ..pre })
            &&& post.program_counter == pre.program_counter
            &&& post.registers == pre.registers
            &&& post.delay_timer == pre.delay_timer
            &&& post.sound_timer == pre.sound_timer
            &&& post.wait_for_keys
        }),
{
    let op = spec_fetch(pre);
    assert(op & 0xF0FF == 0xF00A ==> ((op & 0xF000) >> 12u16 == 0xF) && (op & 0x00FF) == 0x000A)
        by (bit_vector);
    let m = (Chip8 { opcode: op, ..pre });
    lemma_first_pressed_props(m.keys, 0);
    assert(first_pressed(m.keys, 0) == 16);
    assert(step_ld_vxk(m) == (Chip8 { wait_for_keys: true, ..m }));
    assert(spec_dispatch(m) == (step_ld_vxk(m), Ok::<(), Fault>(())));
}

/// Once some key is pressed, the next cycle of the waiting key-load records
/// the least pressed key index in Vx, leaves the waiting state, advances the
/// program counter past the instruction, and the timers count down again.
pub proof fn lemma_key_wait_release(pre: Chip8)
    requires
        pre.program_counter + 1 < MEMORY_SIZE,
        spec_fetch(pre) & 0xF0FF == 0xF00A,
        exists|k: int| 0 <= k < 16 && pre.keys@[k],
    ensures
        ({
            let (post, r) = spec_cycle(pre);
            let k = first_pressed(pre.keys, 0);
            &&& r == Ok::<(), Fault>(())
            &&& 0 <= k < 16 && pre.keys@[k]
            &&& forall|j: int| 0 <= j < k ==> !pre.keys@[j]
            &&& post.registers@ == pre.registers@.update(op_x(spec_fetch(pre)), k as u8)
            &&& post.program_counter == pre.program_counter + 2
            &&& !post.wait_for_keys
            &&& post.delay_timer == tick(pre.delay_timer)
            &&& post.sound_timer == tick(pre.sound_timer)
        }),
{
    let op = spec_fetch(pre);
    assert(op & 0xF0FF == 0xF00A ==> ((op & 0xF000) >> 12u16 == 0xF) && (op & 0x00FF) == 0x000A)
        by (bit_vector);
    let m = (Chip8 { opcode: op, ..pre });
    lemma_first_pressed_props(m.keys, 0);
    let k = first_pressed(m.keys, 0);
    if k == 16 {
        let w = choose|k: int| 0 <= k < 16 && pre.keys@[k];
        assert(!pre.keys@[w]);
    }
    lemma_op_fields(op);
    assert(spec_dispatch(m) == (step_ld_vxk(m), Ok::<(), Fault>(())));
    let s = step_ld_vxk(m);
    assert(s.registers == vstd::array::spec_array_update(m.registers, op_x(op), k as u8));
    assert(s.registers@ == m.registers@.update(op_x(op), k as u8));
    assert(spec_cycle(pre).0 == apply_tick(s));
}

/// Drawing the same sprite twice at the same coordinates restores every
/// framebuffer cell it touched (XOR compositing), and — when the sprite has
/// at least one set bit and VF started clear — the second draw reports a
/// collision in VF. A completely blank sprite sets no pixel and collides
/// with nothing, so VF stays 0 for it.
pub proof fn lemma_draw_twice_restores(m: Chip8)
    requires
        op_x(m.opcode) != 15,
        op_y(m.opcode) != 15,
    ensures
        ({
            let mid = step_drw_xyn(m);
            let post = step_drw_xyn(mid);
            &&& post.framebuffer == m.framebuffer
            &&& ((m.registers@[15] == 0 && exists|rr: int, cc: int|
                0 <= rr < op_n(m.opcode) && 0 <= cc < 8 && #[trigger] sprite_bit(
                    m.memory@[m.index + rr],
                    cc,
                ) == 1) ==> post.registers@[15] == 1)
        }),
{
    lemma_op_fields(m.opcode);
    let n = op_n(m.opcode);
    let vx = m.registers@[op_x(m.opcode)] as int;
    let vy = m.registers@[op_y(m.opcode)] as int;
    let i = m.index as int;
    let first = blit_upto(m.framebuffer, m.memory, i, vx, vy, n, 0);
    let mid = step_drw_xyn(m);
    assert(mid.registers@[op_x(m.opcode)] == m.registers@[op_x(m.opcode)]);
    assert(mid.registers@[op_y(m.opcode)] == m.registers@[op_y(m.opcode)]);
    assert(mid.framebuffer == first.0);
    let second = blit_upto(first.0, m.memory, i, vx, vy, n, 0);
    lemma_blit_twice(m.framebuffer, m.memory, i, vx, vy, n);
    let post = step_drw_xyn(mid);
    assert(post.framebuffer == second.0);
    if m.registers@[15] == 0 && exists|rr: int, cc: int|
        0 <= rr < n && 0 <= cc < 8 && #[trigger] sprite_bit(m.memory@[m.index + rr], cc) == 1 {
        let (rr, cc) = choose|rr: int, cc: int|
            0 <= rr < n && 0 <= cc < 8 && #[trigger] sprite_bit(m.memory@[m.index + rr], cc) == 1;
        assert(processed(n, 0, rr, cc) && sprite_bit(m.memory@[i + rr], cc) == 1);
        assert((first.1 | second.1) == 1);
        assert(mid.registers@[15] == m.registers@[15] | first.1);
        assert(post.registers@[15] == mid.registers@[15] | second.1);
        let a1 = first.1;
        let a2 = second.1;
        assert((a1 | a2) == 1 ==> ((0u8 | a1) | a2) == 1) by (bit_vector);
    }
}

} // verus!
