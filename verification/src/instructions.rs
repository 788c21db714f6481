//! One semantic unit per opcode. Each instruction's meaning is a spec-level
//! step function from the machine state (with the opcode already latched) to
//! the next state; each executable handler is verified to realise exactly its
//! step function, or to report a fault and leave the state untouched.

use vstd::prelude::*;
use vstd::array::spec_array_update;
use vstd::array::spec_array_fill_for_copy_type;
use crate::machine::Chip8;
use crate::machine::Fault;
use crate::machine::MEMORY_SIZE;
use crate::machine::STACK_SIZE;
use crate::machine::op_x;
use crate::machine::op_y;
use crate::machine::op_addr;
use crate::machine::op_kk;
use crate::machine::rng_step;
use crate::machine::rng_byte;
use crate::machine::GLYPH_SIZE;

verus! {

/// The program counter advanced past one instruction.
pub open spec fn pc2(m: Chip8) -> usize
    recommends
        m.program_counter + 2 <= usize::MAX,
{
    (m.program_counter + 2) as usize
}

/// The program counter advanced past two instructions (a taken skip).
pub open spec fn pc4(m: Chip8) -> usize
    recommends
        m.program_counter + 4 <= usize::MAX,
{
    (m.program_counter + 4) as usize
}

/// Addition with 8-bit wraparound: `(a + b) mod 256`.
pub open spec fn wrap_add(a: u8, b: u8) -> u8 {
    if a + b > 255 {
        (a + b - 256) as u8
    } else {
        (a + b) as u8
    }
}

/// Subtraction with 8-bit wraparound: `(a - b) mod 256`.
pub open spec fn wrap_sub(a: u8, b: u8) -> u8 {
    if a >= b {
        (a - b) as u8
    } else {
        (a - b + 256) as u8
    }
}

/// CLS: every framebuffer cell zeroed, program counter advanced by 2.
pub open spec fn step_cls(m: Chip8) -> Chip8 {
    Chip8 {
        framebuffer: spec_array_fill_for_copy_type::<u8, 2048>(0u8),
        program_counter: pc2(m),
        ..m
    }
}

/// RET: pop a return address and resume just past the call site.
pub open spec fn step_ret(m: Chip8) -> Chip8
    recommends
        1 <= m.stack_pointer <= STACK_SIZE,
{
    Chip8 {
        stack_pointer: (m.stack_pointer - 1) as usize,
        program_counter: (m.stack@[m.stack_pointer - 1] + 2) as usize,
        ..m
    }
}

/// JP addr: jump to an absolute address.
pub open spec fn step_jp_addr(m: Chip8) -> Chip8 {
    Chip8 { program_counter: op_addr(m.opcode) as usize, ..m }
}

/// CALL addr: push the address of the call instruction itself (RET adds the
/// 2), then jump.
pub open spec fn step_call_addr(m: Chip8) -> Chip8
    recommends
        m.stack_pointer < STACK_SIZE,
{
    Chip8 {
        stack: spec_array_update(m.stack, m.stack_pointer as int, m.program_counter),
        stack_pointer: (m.stack_pointer + 1) as usize,
        program_counter: op_addr(m.opcode) as usize,
        ..m
    }
}

/// SE Vx,kk: skip the next instruction when Vx equals the immediate.
pub open spec fn step_se_vxkk(m: Chip8) -> Chip8 {
    Chip8 {
        program_counter: if m.registers@[op_x(m.opcode)] == op_kk(m.opcode) {
            pc4(m)
        } else {
            pc2(m)
        },
        ..m
    }
}

/// SNE Vx,kk: skip the next instruction when Vx differs from the immediate.
pub open spec fn step_sne_vxkk(m: Chip8) -> Chip8 {
    Chip8 {
        program_counter: if m.registers@[op_x(m.opcode)] != op_kk(m.opcode) {
            pc4(m)
        } else {
            pc2(m)
        },
        ..m
    }
}

/// SE Vx,Vy: skip the next instruction when the registers are equal.
pub open spec fn step_se_vxvy(m: Chip8) -> Chip8 {
    Chip8 {
        program_counter: if m.registers@[op_x(m.opcode)] == m.registers@[op_y(m.opcode)] {
            pc4(m)
        } else {
            pc2(m)
        },
        ..m
    }
}

/// SNE Vx,Vy: skip the next instruction when the registers differ.
pub open spec fn step_sne_vxvy(m: Chip8) -> Chip8 {
    Chip8 {
        program_counter: if m.registers@[op_x(m.opcode)] != m.registers@[op_y(m.opcode)] {
            pc4(m)
        } else {
            pc2(m)
        },
        ..m
    }
}

/// LD Vx,kk: load an immediate.
pub open spec fn step_ld_vxkk(m: Chip8) -> Chip8 {
    Chip8 {
        registers: spec_array_update(m.registers, op_x(m.opcode), op_kk(m.opcode)),
        program_counter: pc2(m),
        ..m
    }
}

/// ADD Vx,kk: accumulate an immediate with 8-bit wraparound; no flag.
pub open spec fn step_add_vxkk(m: Chip8) -> Chip8 {
    Chip8 {
        registers: spec_array_update(
            m.registers,
            op_x(m.opcode),
            wrap_add(m.registers@[op_x(m.opcode)], op_kk(m.opcode)),
        ),
        program_counter: pc2(m),
        ..m
    }
}

/// LD Vx,Vy: copy a register.
pub open spec fn step_ld_vxvy(m: Chip8) -> Chip8 {
    Chip8 {
        registers: spec_array_update(m.registers, op_x(m.opcode), m.registers@[op_y(m.opcode)]),
        program_counter: pc2(m),
        ..m
    }
}

/// OR Vx,Vy: bitwise or into Vx.
pub open spec fn step_or_vxvy(m: Chip8) -> Chip8 {
    Chip8 {
        registers: spec_array_update(
            m.registers,
            op_x(m.opcode),
            m.registers@[op_x(m.opcode)] | m.registers@[op_y(m.opcode)],
        ),
        program_counter: pc2(m),
        ..m
    }
}

/// AND Vx,Vy: bitwise and into Vx.
pub open spec fn step_and_vxvy(m: Chip8) -> Chip8 {
    Chip8 {
        registers: spec_array_update(
            m.registers,
            op_x(m.opcode),
            m.registers@[op_x(m.opcode)] & m.registers@[op_y(m.opcode)],
        ),
        program_counter: pc2(m),
        ..m
    }
}

/// XOR Vx,Vy: bitwise exclusive or into Vx.
pub open spec fn step_xor_vxvy(m: Chip8) -> Chip8 {
    Chip8 {
        registers: spec_array_update(
            m.registers,
            op_x(m.opcode),
            m.registers@[op_x(m.opcode)] ^ m.registers@[op_y(m.opcode)],
        ),
        program_counter: pc2(m),
        ..m
    }
}

/// ADD Vx,Vy: sum with 8-bit wraparound, then VF := 1 exactly when the true
/// sum exceeds 255.
pub open spec fn step_add_vxvy(m: Chip8) -> Chip8 {
    let vx = m.registers@[op_x(m.opcode)];
    let vy = m.registers@[op_y(m.opcode)];
    Chip8 {
        registers: spec_array_update(
            spec_array_update(m.registers, op_x(m.opcode), wrap_add(vx, vy)),
            15,
            if vx + vy > 255 {
                1u8
            } else {
                0u8
            },
        ),
        program_counter: pc2(m),
        ..m
    }
}

/// SUB Vx,Vy: VF := 1 exactly when Vx > Vy (no borrow), written first, then
/// Vx := Vx - Vy with wraparound.
pub open spec fn step_sub_vxvy(m: Chip8) -> Chip8 {
    let vx = m.registers@[op_x(m.opcode)];
    let vy = m.registers@[op_y(m.opcode)];
    Chip8 {
        registers: spec_array_update(
            spec_array_update(
                m.registers,
                15,
                if vx > vy {
                    1u8
                } else {
                    0u8
                },
            ),
            op_x(m.opcode),
            wrap_sub(vx, vy),
        ),
        program_counter: pc2(m),
        ..m
    }
}

/// SUBN Vx,Vy: VF := 1 exactly when Vy > Vx, written first, then
/// Vx := Vy - Vx with wraparound.
pub open spec fn step_subn_vxvy(m: Chip8) -> Chip8 {
    let vx = m.registers@[op_x(m.opcode)];
    let vy = m.registers@[op_y(m.opcode)];
    Chip8 {
        registers: spec_array_update(
            spec_array_update(
                m.registers,
                15,
                if vy > vx {
                    1u8
                } else {
                    0u8
                },
            ),
            op_x(m.opcode),
            wrap_sub(vy, vx),
        ),
        program_counter: pc2(m),
        ..m
    }
}

/// SHR Vx: VF := the pre-shift least significant bit, written first, then
/// Vx shifted right once (so with x = 0xF the shift acts on the flag).
pub open spec fn step_shr_vx(m: Chip8) -> Chip8 {
    let lsb = m.registers@[op_x(m.opcode)] & 1;
    let flagged = spec_array_update(m.registers, 15, lsb);
    Chip8 {
        registers: spec_array_update(flagged, op_x(m.opcode), flagged@[op_x(m.opcode)] >> 1u8),
        program_counter: pc2(m),
        ..m
    }
}

/// SHL Vx: VF := the pre-shift most significant bit, written first, then
/// Vx shifted left once with 8-bit wraparound (so with x = 0xF the shift
/// acts on the flag).
pub open spec fn step_shl_vx(m: Chip8) -> Chip8 {
    let msb = (m.registers@[op_x(m.opcode)] & 0x80) >> 7u8;
    let flagged = spec_array_update(m.registers, 15, msb);
    Chip8 {
        registers: spec_array_update(flagged, op_x(m.opcode), flagged@[op_x(m.opcode)] << 1u8),
        program_counter: pc2(m),
        ..m
    }
}

/// LD I,addr: load the index register.
pub open spec fn step_ld_iaddr(m: Chip8) -> Chip8 {
    Chip8 { index: op_addr(m.opcode) as usize, program_counter: pc2(m), ..m }
}

/// JP V0,addr: jump to addr + V0; a direct jump, no skip semantics.
pub open spec fn step_jp_v0addr(m: Chip8) -> Chip8 {
    Chip8 { program_counter: (op_addr(m.opcode) + m.registers@[0]) as usize, ..m }
}

/// RND Vx,kk: Vx := (next pseudo-random byte) AND kk, stepping the
/// machine-owned generator.
pub open spec fn step_rnd_xkk(m: Chip8) -> Chip8 {
    Chip8 {
        registers: spec_array_update(
            m.registers,
            op_x(m.opcode),
            rng_byte(m.rng) & op_kk(m.opcode),
        ),
        rng: rng_step(m.rng),
        program_counter: pc2(m),
        ..m
    }
}

/// SKP Vx: skip the next instruction when key Vx is pressed.
pub open spec fn step_skp_vx(m: Chip8) -> Chip8
    recommends
        m.registers@[op_x(m.opcode)] < 16,
{
    Chip8 {
        program_counter: if m.keys@[m.registers@[op_x(m.opcode)] as int] {
            pc4(m)
        } else {
            pc2(m)
        },
        ..m
    }
}

/// SKNP Vx: skip the next instruction when key Vx is not pressed.
pub open spec fn step_sknp_vx(m: Chip8) -> Chip8
    recommends
        m.registers@[op_x(m.opcode)] < 16,
{
    Chip8 {
        program_counter: if !m.keys@[m.registers@[op_x(m.opcode)] as int] {
            pc4(m)
        } else {
            pc2(m)
        },
        ..m
    }
}

/// LD Vx,DT: read the delay timer.
pub open spec fn step_ld_vxdt(m: Chip8) -> Chip8 {
    Chip8 {
        registers: spec_array_update(m.registers, op_x(m.opcode), m.delay_timer),
        program_counter: pc2(m),
        ..m
    }
}

/// The least pressed key index at or above `i`, or 16 when none is pressed.
pub open spec fn first_pressed(keys: [bool; 16], i: int) -> int
    decreases 16 - i,
{
    if i < 0 || i >= 16 {
        16
    } else if keys@[i] {
        i
    } else {
        first_pressed(keys, i + 1)
    }
}

/// LD Vx,K: with no key pressed, enter the waiting state and freeze the
/// program counter; otherwise record the least pressed key in Vx, leave the
/// waiting state and advance.
pub open spec fn step_ld_vxk(m: Chip8) -> Chip8 {
    let k = first_pressed(m.keys, 0);
    if k == 16 {
        Chip8 { wait_for_keys: true, ..m }
    } else {
        Chip8 {
            wait_for_keys: false,
            registers: spec_array_update(m.registers, op_x(m.opcode), k as u8),
            program_counter: pc2(m),
            ..m
        }
    }
}

/// LD DT,Vx: set the delay timer.
pub open spec fn step_ld_dtvx(m: Chip8) -> Chip8 {
    Chip8 {
        delay_timer: m.registers@[op_x(m.opcode)],
        program_counter: pc2(m),
        ..m
    }
}

/// LD ST,Vx: set the sound timer.
pub open spec fn step_ld_stvx(m: Chip8) -> Chip8 {
    Chip8 {
        sound_timer: m.registers@[op_x(m.opcode)],
        program_counter: pc2(m),
        ..m
    }
}

/// ADD I,Vx: I += Vx, then VF := 1 exactly when the new I exceeds 0x0F00
/// (a compatibility quirk of this machine, kept deliberately).
pub open spec fn step_add_ivx(m: Chip8) -> Chip8
    recommends
        m.index + m.registers@[op_x(m.opcode)] < MEMORY_SIZE,
{
    let sum = m.index + m.registers@[op_x(m.opcode)];
    Chip8 {
        index: sum as usize,
        registers: spec_array_update(
            m.registers,
            15,
            if sum > 0x0F00 {
                1u8
            } else {
                0u8
            },
        ),
        program_counter: pc2(m),
        ..m
    }
}

/// LD F,Vx: point I at the font glyph for the value of Vx
/// (5 bytes per glyph, fontset at address 0).
pub open spec fn step_ld_fvx(m: Chip8) -> Chip8 {
    Chip8 {
        index: (m.registers@[op_x(m.opcode)] * GLYPH_SIZE) as usize,
        program_counter: pc2(m),
        ..m
    }
}

/// LD B,Vx: write the decimal digits of Vx — hundreds, tens, ones — to
/// memory[I], memory[I+1], memory[I+2].
pub open spec fn step_ld_bvx(m: Chip8) -> Chip8
    recommends
        m.index + 2 < MEMORY_SIZE,
{
    let vx = m.registers@[op_x(m.opcode)];
    Chip8 {
        memory: spec_array_update(
            spec_array_update(
                spec_array_update(m.memory, m.index as int, (vx / 100) as u8),
                m.index + 1,
                ((vx / 10) % 10) as u8,
            ),
            m.index + 2,
            (vx % 10) as u8,
        ),
        program_counter: pc2(m),
        ..m
    }
}

/// Memory with registers 0 through k-1 stored at addresses i through i+k-1.
pub open spec fn store_block(mem: [u8; 4096], regs: [u8; 16], i: int, k: int) -> [u8; 4096]
    decreases k,
{
    if k <= 0 {
        mem
    } else {
        spec_array_update(store_block(mem, regs, i, k - 1), i + (k - 1), regs@[k - 1])
    }
}

/// Registers with slots 0 through k-1 loaded from addresses i through i+k-1.
pub open spec fn load_block(regs: [u8; 16], mem: [u8; 4096], i: int, k: int) -> [u8; 16]
    decreases k,
{
    if k <= 0 {
        regs
    } else {
        spec_array_update(load_block(regs, mem, i, k - 1), k - 1, mem@[i + (k - 1)])
    }
}

/// LD [I],Vx: store registers 0..=x to memory starting at I;
/// I itself is left unmodified (the compatibility choice this machine keeps).
pub open spec fn step_ld_ivx(m: Chip8) -> Chip8
    recommends
        m.index + op_x(m.opcode) < MEMORY_SIZE,
{
    Chip8 {
        memory: store_block(m.memory, m.registers, m.index as int, op_x(m.opcode) + 1),
        program_counter: pc2(m),
        ..m
    }
}

/// LD Vx,[I]: load registers 0..=x from memory starting at I;
/// I itself is left unmodified (the compatibility choice this machine keeps).
pub open spec fn step_ld_vxi(m: Chip8) -> Chip8
    recommends
        m.index + op_x(m.opcode) < MEMORY_SIZE,
{
    Chip8 {
        registers: load_block(m.registers, m.memory, m.index as int, op_x(m.opcode) + 1),
        program_counter: pc2(m),
        ..m
    }
}

impl Chip8 {
    pub(crate) fn cls(&mut self)
        requires
            old(self).wf(),
            old(self).program_counter < MEMORY_SIZE,
        ensures
            final(self).wf(),
            *final(self) == step_cls(*old(self)),
    {
        self.framebuffer = [0u8; 2048];
        self.inc_pc();
    }

    pub(crate) fn ret(&mut self) -> (r: Result<(), Fault>)
        requires
            old(self).wf(),
            old(self).program_counter < MEMORY_SIZE,
        ensures
            final(self).wf(),
            old(self).stack_pointer == 0 ==> r == Err::<(), Fault>(Fault::StackUnderflow)
                && *final(self) == *old(self),
            old(self).stack_pointer != 0 ==> r == Ok::<(), Fault>(())
                && *final(self) == step_ret(*old(self)),
    {
        if self.stack_pointer == 0 {
            return Err(Fault::StackUnderflow);
        }
        self.stack_pointer = self.stack_pointer - 1;
        self.program_counter = self.stack[self.stack_pointer] + 2;
        Ok(())
    }

    pub(crate) fn jp_addr(&mut self)
        requires
            old(self).wf(),
            old(self).program_counter < MEMORY_SIZE,
        ensures
            final(self).wf(),
            *final(self) == step_jp_addr(*old(self)),
    {
        let addr: usize = self.get_addr();
        self.program_counter = addr;
    }

    pub(crate) fn call_addr(&mut self) -> (r: Result<(), Fault>)
        requires
            old(self).wf(),
            old(self).program_counter < MEMORY_SIZE,
        ensures
            final(self).wf(),
            old(self).stack_pointer == STACK_SIZE ==> r == Err::<(), Fault>(Fault::StackOverflow)
                && *final(self) == *old(self),
            old(self).stack_pointer < STACK_SIZE ==> r == Ok::<(), Fault>(())
                && *final(self) == step_call_addr(*old(self)),
    {
        if self.stack_pointer >= STACK_SIZE {
            return Err(Fault::StackOverflow);
        }
        let addr: usize = self.get_addr();
        self.stack[self.stack_pointer] = self.program_counter;
        self.stack_pointer = self.stack_pointer + 1;
        self.program_counter = addr;
        Ok(())
    }

    pub(crate) fn se_vxkk(&mut self)
        requires
            old(self).wf(),
            old(self).program_counter < MEMORY_SIZE,
        ensures
            final(self).wf(),
            *final(self) == step_se_vxkk(*old(self)),
    {
        let x: usize = self.get_x();
        let byte: u8 = self.get_kk();
        if self.registers[x] == byte {
            self.inc_pc();
        }
        self.inc_pc();
    }

    pub(crate) fn sne_vxkk(&mut self)
        requires
            old(self).wf(),
            old(self).program_counter < MEMORY_SIZE,
        ensures
            final(self).wf(),
            *final(self) == step_sne_vxkk(*old(self)),
    {
        let x: usize = self.get_x();
        let byte: u8 = self.get_kk();
        if self.registers[x] != byte {
            self.inc_pc();
        }
        self.inc_pc();
    }

    pub(crate) fn se_vxvy(&mut self)
        requires
            old(self).wf(),
            old(self).program_counter < MEMORY_SIZE,
        ensures
            final(self).wf(),
            *final(self) == step_se_vxvy(*old(self)),
    {
        let x: usize = self.get_x();
        let y: usize = self.get_y();
        if self.registers[x] == self.registers[y] {
            self.inc_pc();
        }
        self.inc_pc();
    }

    pub(crate) fn sne_vxvy(&mut self)
        requires
            old(self).wf(),
            old(self).program_counter < MEMORY_SIZE,
        ensures
            final(self).wf(),
            *final(self) == step_sne_vxvy(*old(self)),
    {
        let x: usize = self.get_x();
        let y: usize = self.get_y();
        if self.registers[x] != self.registers[y] {
            self.inc_pc();
        }
        self.inc_pc();
    }

    pub(crate) fn ld_vxkk(&mut self)
        requires
            old(self).wf(),
            old(self).program_counter < MEMORY_SIZE,
        ensures
            final(self).wf(),
            *final(self) == step_ld_vxkk(*old(self)),
    {
        let x: usize = self.get_x();
        let byte: u8 = self.get_kk();
        self.registers[x] = byte;
        self.inc_pc();
    }

    pub(crate) fn add_vxkk(&mut self)
        requires
            old(self).wf(),
            old(self).program_counter < MEMORY_SIZE,
        ensures
            final(self).wf(),
            *final(self) == step_add_vxkk(*old(self)),
    {
        let x: usize = self.get_x();
        let byte: u8 = self.get_kk();
        let sum: u16 = self.registers[x] as u16 + byte as u16;
        self.registers[x] = (sum % 256) as u8;
        self.inc_pc();
    }

    pub(crate) fn ld_vxvy(&mut self)
        requires
            old(self).wf(),
            old(self).program_counter < MEMORY_SIZE,
        ensures
            final(self).wf(),
            *final(self) == step_ld_vxvy(*old(self)),
    {
        let x: usize = self.get_x();
        let y: usize = self.get_y();
        self.registers[x] = self.registers[y];
        self.inc_pc();
    }

    pub(crate) fn or_vxvy(&mut self)
        requires
            old(self).wf(),
            old(self).program_counter < MEMORY_SIZE,
        ensures
            final(self).wf(),
            *final(self) == step_or_vxvy(*old(self)),
    {
        let x: usize = self.get_x();
        let y: usize = self.get_y();
        self.registers[x] = self.registers[x] | self.registers[y];
        self.inc_pc();
    }

    pub(crate) fn and_vxvy(&mut self)
        requires
            old(self).wf(),
            old(self).program_counter < MEMORY_SIZE,
        ensures
            final(self).wf(),
            *final(self) == step_and_vxvy(*old(self)),
    {
        let x: usize = self.get_x();
        let y: usize = self.get_y();
        self.registers[x] = self.registers[x] & self.registers[y];
        self.inc_pc();
    }

    pub(crate) fn xor_vxvy(&mut self)
        requires
            old(self).wf(),
            old(self).program_counter < MEMORY_SIZE,
        ensures
            final(self).wf(),
            *final(self) == step_xor_vxvy(*old(self)),
    {
        let x: usize = self.get_x();
        let y: usize = self.get_y();
        self.registers[x] = self.registers[x] ^ self.registers[y];
        self.inc_pc();
    }

    pub(crate) fn add_vxvy(&mut self)
        requires
            old(self).wf(),
            old(self).program_counter < MEMORY_SIZE,
        ensures
            final(self).wf(),
            *final(self) == step_add_vxvy(*old(self)),
    {
        let x: usize = self.get_x();
        let y: usize = self.get_y();
        let vx: u16 = self.registers[x] as u16;
        let vy: u16 = self.registers[y] as u16;
        let result: u16 = vx + vy;
        self.registers[x] = (result % 256) as u8;
        self.registers[0xF] = if result > 255 {
            1
        } else {
            0
        };
        self.inc_pc();
    }

    pub(crate) fn sub_vxvy(&mut self)
        requires
            old(self).wf(),
            old(self).program_counter < MEMORY_SIZE,
        ensures
            final(self).wf(),
            *final(self) == step_sub_vxvy(*old(self)),
    {
        let x: usize = self.get_x();
        let y: usize = self.get_y();
        let vx: u8 = self.registers[x];
        let vy: u8 = self.registers[y];
        self.registers[0xF] = if vx > vy {
            1
        } else {
            0
        };
        self.registers[x] = vx.wrapping_sub(vy);
        self.inc_pc();
    }

    pub(crate) fn subn_vxvy(&mut self)
        requires
            old(self).wf(),
            old(self).program_counter < MEMORY_SIZE,
        ensures
            final(self).wf(),
            *final(self) == step_subn_vxvy(*old(self)),
    {
        let x: usize = self.get_x();
        let y: usize = self.get_y();
        let vx: u8 = self.registers[x];
        let vy: u8 = self.registers[y];
        self.registers[0xF] = if vy > vx {
            1
        } else {
            0
        };
        self.registers[x] = vy.wrapping_sub(vx);
        self.inc_pc();
    }

    pub(crate) fn shr_vx(&mut self)
        requires
            old(self).wf(),
            old(self).program_counter < MEMORY_SIZE,
        ensures
            final(self).wf(),
            *final(self) == step_shr_vx(*old(self)),
    {
        let x: usize = self.get_x();
        let lsb: u8 = self.registers[x] & 1;
        self.registers[0xF] = lsb;
        self.registers[x] = self.registers[x] >> 1u8;
        self.inc_pc();
    }

    pub(crate) fn shl_vx(&mut self)
        requires
            old(self).wf(),
            old(self).program_counter < MEMORY_SIZE,
        ensures
            final(self).wf(),
            *final(self) == step_shl_vx(*old(self)),
    {
        let x: usize = self.get_x();
        let msb: u8 = (self.registers[x] & 0x80) >> 7u8;
        self.registers[0xF] = msb;
        self.registers[x] = self.registers[x] << 1u8;
        self.inc_pc();
    }

    pub(crate) fn ld_iaddr(&mut self)
        requires
            old(self).wf(),
            old(self).program_counter < MEMORY_SIZE,
        ensures
            final(self).wf(),
            *final(self) == step_ld_iaddr(*old(self)),
    {
        self.index = self.get_addr();
        self.inc_pc();
    }

    pub(crate) fn jp_v0addr(&mut self)
        requires
            old(self).wf(),
            old(self).program_counter < MEMORY_SIZE,
        ensures
            final(self).wf(),
            *final(self) == step_jp_v0addr(*old(self)),
    {
        let addr: usize = self.get_addr();
        self.program_counter = addr + self.registers[0] as usize;
    }

    pub(crate) fn rnd_xkk(&mut self)
        requires
            old(self).wf(),
            old(self).program_counter < MEMORY_SIZE,
        ensures
            final(self).wf(),
            *final(self) == step_rnd_xkk(*old(self)),
    {
        let x: usize = self.get_x();
        let byte: u8 = self.get_kk();
        let rand: u8 = self.next_random();
        self.registers[x] = rand & byte;
        self.inc_pc();
    }

    pub(crate) fn skp_vx(&mut self) -> (r: Result<(), Fault>)
        requires
            old(self).wf(),
            old(self).program_counter < MEMORY_SIZE,
        ensures
            final(self).wf(),
            old(self).registers@[op_x(old(self).opcode)] >= 16 ==> r == Err::<(), Fault>(
                Fault::MemoryOutOfBounds,
            ) && *final(self) == *old(self),
            old(self).registers@[op_x(old(self).opcode)] < 16 ==> r == Ok::<(), Fault>(())
                && *final(self) == step_skp_vx(*old(self)),
    {
        let x: usize = self.get_x();
        let key: u8 = self.registers[x];
        if key >= 16 {
            return Err(Fault::MemoryOutOfBounds);
        }
        if self.keys[key as usize] {
            self.inc_pc();
        }
        self.inc_pc();
        Ok(())
    }

    pub(crate) fn sknp_vx(&mut self) -> (r: Result<(), Fault>)
        requires
            old(self).wf(),
            old(self).program_counter < MEMORY_SIZE,
        ensures
            final(self).wf(),
            old(self).registers@[op_x(old(self).opcode)] >= 16 ==> r == Err::<(), Fault>(
                Fault::MemoryOutOfBounds,
            ) && *final(self) == *old(self),
            old(self).registers@[op_x(old(self).opcode)] < 16 ==> r == Ok::<(), Fault>(())
                && *final(self) == step_sknp_vx(*old(self)),
    {
        let x: usize = self.get_x();
        let key: u8 = self.registers[x];
        if key >= 16 {
            return Err(Fault::MemoryOutOfBounds);
        }
        if !self.keys[key as usize] {
            self.inc_pc();
        }
        self.inc_pc();
        Ok(())
    }

    pub(crate) fn ld_vxdt(&mut self)
        requires
            old(self).wf(),
            old(self).program_counter < MEMORY_SIZE,
        ensures
            final(self).wf(),
            *final(self) == step_ld_vxdt(*old(self)),
    {
        let x: usize = self.get_x();
        self.registers[x] = self.delay_timer;
        self.inc_pc();
    }

    pub(crate) fn ld_vxk(&mut self)
        requires
            old(self).wf(),
            old(self).program_counter < MEMORY_SIZE,
        ensures
            final(self).wf(),
            *final(self) == step_ld_vxk(*old(self)),
    {
        let x: usize = self.get_x();
        self.wait_for_keys = true;
        let mut i: usize = 0;
        while i < 16
            invariant
                i <= 16,
                x == op_x(old(self).opcode),
                x < 16,
                old(self).wf(),
                old(self).program_counter < MEMORY_SIZE,
                *self == (Chip8 { wait_for_keys: true, ..*old(self) }),
                first_pressed(old(self).keys, 0) == first_pressed(old(self).keys, i as int),
            decreases 16 - i,
        {
            if self.keys[i] {
                self.registers[x] = i as u8;
                self.wait_for_keys = false;
                self.inc_pc();
                proof {
                    assert(first_pressed(old(self).keys, i as int) == i as int);
                    assert(*self =~= step_ld_vxk(*old(self)));
                }
                return;
            }
            i = i + 1;
        }
        proof {
            assert(first_pressed(old(self).keys, 16) == 16);
            assert(*self =~= step_ld_vxk(*old(self)));
        }
    }

    pub(crate) fn ld_dtvx(&mut self)
        requires
            old(self).wf(),
            old(self).program_counter < MEMORY_SIZE,
        ensures
            final(self).wf(),
            *final(self) == step_ld_dtvx(*old(self)),
    {
        let x: usize = self.get_x();
        self.delay_timer = self.registers[x];
        self.inc_pc();
    }

    pub(crate) fn ld_stvx(&mut self)
        requires
            old(self).wf(),
            old(self).program_counter < MEMORY_SIZE,
        ensures
            final(self).wf(),
            *final(self) == step_ld_stvx(*old(self)),
    {
        let x: usize = self.get_x();
        self.sound_timer = self.registers[x];
        self.inc_pc();
    }

    /// The index register is bounds-checked here: driving I out of memory
    /// is the modeled fault for unchecked index arithmetic.
    pub(crate) fn add_ivx(&mut self) -> (r: Result<(), Fault>)
        requires
            old(self).wf(),
            old(self).program_counter < MEMORY_SIZE,
        ensures
            final(self).wf(),
            old(self).index + old(self).registers@[op_x(old(self).opcode)] >= MEMORY_SIZE
                ==> r == Err::<(), Fault>(Fault::MemoryOutOfBounds) && *final(self) == *old(self),
            old(self).index + old(self).registers@[op_x(old(self).opcode)] < MEMORY_SIZE
                ==> r == Ok::<(), Fault>(()) && *final(self) == step_add_ivx(*old(self)),
    {
        let x: usize = self.get_x();
        let vx: usize = self.registers[x] as usize;
        if self.index + vx >= MEMORY_SIZE {
            return Err(Fault::MemoryOutOfBounds);
        }
        self.index = self.index + vx;
        self.registers[0xF] = if self.index > 0x0F00 {
            1
        } else {
            0
        };
        self.inc_pc();
        Ok(())
    }

    pub(crate) fn ld_fvx(&mut self)
        requires
            old(self).wf(),
            old(self).program_counter < MEMORY_SIZE,
        ensures
            final(self).wf(),
            *final(self) == step_ld_fvx(*old(self)),
    {
        let x: usize = self.get_x();
        self.index = (self.registers[x] as usize) * GLYPH_SIZE;
        self.inc_pc();
    }

    pub(crate) fn ld_bvx(&mut self) -> (r: Result<(), Fault>)
        requires
            old(self).wf(),
            old(self).program_counter < MEMORY_SIZE,
        ensures
            final(self).wf(),
            old(self).index + 2 >= MEMORY_SIZE ==> r == Err::<(), Fault>(Fault::MemoryOutOfBounds)
                && *final(self) == *old(self),
            old(self).index + 2 < MEMORY_SIZE ==> r == Ok::<(), Fault>(())
                && *final(self) == step_ld_bvx(*old(self)),
    {
        if self.index + 2 >= MEMORY_SIZE {
            return Err(Fault::MemoryOutOfBounds);
        }
        let x: usize = self.get_x();
        let vx: u8 = self.registers[x];
        self.memory[self.index] = vx / 100;
        self.memory[self.index + 1] = (vx / 10) % 10;
        self.memory[self.index + 2] = vx % 10;
        self.inc_pc();
        Ok(())
    }

    pub(crate) fn ld_ivx(&mut self) -> (r: Result<(), Fault>)
        requires
            old(self).wf(),
            old(self).program_counter < MEMORY_SIZE,
        ensures
            final(self).wf(),
            old(self).index + op_x(old(self).opcode) >= MEMORY_SIZE ==> r == Err::<(), Fault>(
                Fault::MemoryOutOfBounds,
            ) && *final(self) == *old(self),
            old(self).index + op_x(old(self).opcode) < MEMORY_SIZE ==> r == Ok::<(), Fault>(())
                && *final(self) == step_ld_ivx(*old(self)),
    {
        let x: usize = self.get_x();
        if self.index + x >= MEMORY_SIZE {
            return Err(Fault::MemoryOutOfBounds);
        }
        let mut i: usize = 0;
        while i <= x
            invariant
                i <= x + 1,
                x == op_x(old(self).opcode),
                x < 16,
                old(self).wf(),
                old(self).index + x < MEMORY_SIZE,
                old(self).program_counter < MEMORY_SIZE,
                *self == (Chip8 { memory: self.memory, ..*old(self) }),
                self.memory == store_block(
                    old(self).memory,
                    old(self).registers,
                    old(self).index as int,
                    i as int,
                ),
            decreases x + 1 - i,
        {
            self.memory[self.index + i] = self.registers[i];
            i = i + 1;
        }
        self.inc_pc();
        Ok(())
    }

    pub(crate) fn ld_vxi(&mut self) -> (r: Result<(), Fault>)
        requires
            old(self).wf(),
            old(self).program_counter < MEMORY_SIZE,
        ensures
            final(self).wf(),
            old(self).index + op_x(old(self).opcode) >= MEMORY_SIZE ==> r == Err::<(), Fault>(
                Fault::MemoryOutOfBounds,
            ) && *final(self) == *old(self),
            old(self).index + op_x(old(self).opcode) < MEMORY_SIZE ==> r == Ok::<(), Fault>(())
                && *final(self) == step_ld_vxi(*old(self)),
    {
        let x: usize = self.get_x();
        if self.index + x >= MEMORY_SIZE {
            return Err(Fault::MemoryOutOfBounds);
        }
        let mut i: usize = 0;
        while i <= x
            invariant
                i <= x + 1,
                x == op_x(old(self).opcode),
                x < 16,
                old(self).wf(),
                old(self).index + x < MEMORY_SIZE,
                old(self).program_counter < MEMORY_SIZE,
                *self == (Chip8 { registers: self.registers, ..*old(self) }),
                self.registers == load_block(
                    old(self).registers,
                    old(self).memory,
                    old(self).index as int,
                    i as int,
                ),
            decreases x + 1 - i,
        {
            self.registers[i] = self.memory[self.index + i];
            i = i + 1;
        }
        self.inc_pc();
        Ok(())
    }
}

} // verus!
