//! The machine state: registers, memory, stack, timers, keypad and
//! framebuffer, together with construction, ROM loading and opcode fetch.

use vstd::prelude::*;

verus! {

/// Bytes of addressable memory.
pub const MEMORY_SIZE: usize = 4096;

/// Framebuffer width in pixels.
pub const WIDTH: usize = 64;

/// Framebuffer height in pixels.
pub const HEIGHT: usize = 32;

/// First address of the program region; everything below it is reserved
/// for the fontset.
pub const PROGRAM_START: usize = 0x200;

/// Largest ROM that fits in the program region.
pub const MAX_ROM_SIZE: usize = 3584;

/// Call stack capacity.
pub const STACK_SIZE: usize = 16;

/// Number of bytes per font glyph.
pub const GLYPH_SIZE: usize = 5;

/// Starting state of the pseudo-random generator; any nonzero value works,
/// and the driver may reseed through the `rng` field for reproducible runs.
pub const RNG_SEED: u64 = 0x139408DCBBF7A44;

/// The standard CHIP-8 hexadecimal font: 16 glyphs of 5 bytes each,
/// for the digits 0 through F, placed at address 0 on construction.
pub const FONTSET: [u8; 80] = [
    0xF0, 0x90, 0x90, 0x90, 0xF0, // 0
    0x20, 0x60, 0x20, 0x20, 0x70, // 1
    0xF0, 0x10, 0xF0, 0x80, 0xF0, // 2
    0xF0, 0x10, 0xF0, 0x10, 0xF0, // 3
    0x90, 0x90, 0xF0, 0x10, 0x10, // 4
    0xF0, 0x80, 0xF0, 0x10, 0xF0, // 5
    0xF0, 0x80, 0xF0, 0x90, 0xF0, // 6
    0xF0, 0x10, 0x20, 0x40, 0x40, // 7
    0xF0, 0x90, 0xF0, 0x90, 0xF0, // 8
    0xF0, 0x90, 0xF0, 0x10, 0xF0, // 9
    0xF0, 0x90, 0xF0, 0x90, 0x90, // A
    0xE0, 0x90, 0xE0, 0x90, 0xE0, // B
    0xF0, 0x80, 0x80, 0x80, 0xF0, // C
    0xE0, 0x90, 0x90, 0x90, 0xE0, // D
    0xF0, 0x80, 0xF0, 0x80, 0xF0, // E
    0xF0, 0x80, 0xF0, 0x80, 0x80, // F
];

/// Everything that can go wrong in one `load` or `cycle` call. Faults are
/// reported to the caller and never retried; the faulting call leaves the
/// machine unchanged apart from the opcode latch.
#[derive(Clone, Copy, Debug, PartialEq, Eq, Structural)]
pub enum Fault {
    /// The ROM holds more bytes than the 3584-byte program region.
    RomTooLarge,
    /// The fetched instruction word matches no handler.
    UnimplementedOpcode(u16),
    /// A call was executed with the stack already holding 16 return addresses.
    StackOverflow,
    /// A return was executed with an empty stack.
    StackUnderflow,
    /// A memory, keypad or index-register computation landed outside its
    /// valid range.
    MemoryOutOfBounds,
}

/// The whole machine. Fields are public: the external driver writes the
/// keypad, clears `need_redraw` after presenting the framebuffer, and may
/// reseed `rng`; everything else it should only read.
#[derive(Debug)]
#[verifier::ext_equal]
pub struct Chip8 {
    /// Latch holding the most recently fetched instruction word.
    pub opcode: u16,
    pub program_counter: usize,
    /// The index register I.
    pub index: usize,
    pub stack_pointer: usize,
    pub stack: [usize; 16],
    pub registers: [u8; 16],
    pub memory: [u8; 4096],
    /// One byte per pixel, row-major, each 0 or 1.
    pub framebuffer: [u8; 2048],
    pub sound_timer: u8,
    pub delay_timer: u8,
    /// Key states, written by the external input collaborator.
    pub keys: [bool; 16],
    /// While set, the program counter is frozen on a key-wait instruction
    /// and the timers do not run.
    pub wait_for_keys: bool,
    /// Set by the draw instruction; the display consumer clears it.
    pub need_redraw: bool,
    /// State of the machine-owned pseudo-random generator.
    pub rng: u64,
}

impl Chip8 {
    /// Bounds that construction establishes and every cycle preserves:
    /// the stack pointer stays within capacity, the index register stays
    /// inside memory (driving it out is a reported fault), and every stack
    /// slot holds an address inside memory.
    pub open spec fn wf(self) -> bool {
        &&& self.stack_pointer <= STACK_SIZE
        &&& self.index < MEMORY_SIZE
        &&& forall|i: int| 0 <= i < STACK_SIZE ==> self.stack@[i] < MEMORY_SIZE
    }
}

/// The big-endian instruction word at the program counter:
/// `memory[PC] << 8 | memory[PC + 1]`.
pub open spec fn spec_fetch(m: Chip8) -> u16
    recommends
        m.program_counter + 1 < MEMORY_SIZE,
{
    ((m.memory@[m.program_counter as int] as u16) << 8u16)
        | (m.memory@[m.program_counter + 1] as u16)
}

/// The X field of an opcode: bits 8-11, a register index.
pub open spec fn op_x(op: u16) -> int {
    ((op & 0x0F00) >> 8u16) as int
}

/// The Y field of an opcode: bits 4-7, a register index.
pub open spec fn op_y(op: u16) -> int {
    ((op & 0x00F0) >> 4u16) as int
}

/// The NNN field of an opcode: bits 0-11, a memory address.
pub open spec fn op_addr(op: u16) -> int {
    (op & 0x0FFF) as int
}

/// The KK field of an opcode: bits 0-7, an immediate byte.
pub open spec fn op_kk(op: u16) -> u8 {
    (op & 0x00FF) as u8
}

/// The N field of an opcode: bits 0-3, a nibble.
pub open spec fn op_n(op: u16) -> int {
    (op & 0x000F) as int
}

/// Ranges of the decoded opcode fields.
pub proof fn lemma_op_fields(op: u16)
    ensures
        0 <= op_x(op) < 16,
        0 <= op_y(op) < 16,
        0 <= op_addr(op) < 4096,
        0 <= op_n(op) < 16,
{
    assert(((op & 0x0F00) >> 8u16) < 16 && ((op & 0x00F0) >> 4u16) < 16
        && (op & 0x0FFF) < 4096 && (op & 0x000F) < 16) by (bit_vector);
}

/// One step of the machine-owned xorshift pseudo-random generator.
pub open spec fn rng_step(s: u64) -> u64 {
    let a = s ^ (s << 13u64);
    let b = a ^ (a >> 7u64);
    b ^ (b << 17u64)
}

/// The byte drawn from one generator step.
pub open spec fn rng_byte(s: u64) -> u8 {
    (rng_step(s) & 0xFF) as u8
}

impl Chip8 {
    /// A machine ready to load a ROM: program counter at the program region,
    /// fontset in place, everything else zeroed.
    pub fn new() -> (m: Chip8)
        ensures
            m.wf(),
            m.opcode == 0,
            m.program_counter == PROGRAM_START,
            m.index == 0,
            m.stack_pointer == 0,
            forall|i: int| 0 <= i < 16 ==> m.stack@[i] == 0,
            forall|i: int| 0 <= i < 16 ==> m.registers@[i] == 0,
            forall|i: int| 0 <= i < 80 ==> m.memory@[i] == FONTSET@[i],
            forall|i: int| 80 <= i < 4096 ==> m.memory@[i] == 0,
            forall|i: int| 0 <= i < 2048 ==> m.framebuffer@[i] == 0,
            m.sound_timer == 0,
            m.delay_timer == 0,
            forall|i: int| 0 <= i < 16 ==> !m.keys@[i],
            !m.wait_for_keys,
            !m.need_redraw,
            m.rng == RNG_SEED,
    {
        let mut memory: [u8; 4096] = [0u8; 4096];
        let mut i: usize = 0;
        while i < 80
            invariant
                i <= 80,
                forall|j: int| 0 <= j < i ==> memory@[j] == FONTSET@[j],
                forall|j: int| i <= j < 4096 ==> memory@[j] == 0,
            decreases 80 - i,
        {
            memory[i] = FONTSET[i];
            i = i + 1;
        }
        Chip8 {
            opcode: 0,
            program_counter: PROGRAM_START,
            index: 0,
            stack_pointer: 0,
            stack: [0usize; 16],
            registers: [0u8; 16],
            memory,
            framebuffer: [0u8; 2048],
            sound_timer: 0,
            delay_timer: 0,
            keys: [false; 16],
            wait_for_keys: false,
            need_redraw: false,
            rng: RNG_SEED,
        }
    }

    /// Copies a ROM into memory at the program region. A ROM longer than the
    /// region is rejected whole, never silently truncated.
    pub fn load(&mut self, rom: &[u8]) -> (r: Result<(), Fault>)
        ensures
            rom@.len() > MAX_ROM_SIZE ==> r == Err::<(), Fault>(Fault::RomTooLarge)
                && *final(self) == *old(self),
            rom@.len() <= MAX_ROM_SIZE ==> {
                &&& r == Ok::<(), Fault>(())
                &&& *final(self) == (Chip8 { memory: final(self).memory, ..*old(self) })
                &&& forall|j: int|
                    0 <= j < rom@.len() ==> final(self).memory@[PROGRAM_START + j] == rom@[j]
                &&& forall|j: int|
                    0 <= j < 4096 && !(PROGRAM_START <= j < PROGRAM_START + rom@.len())
                        ==> final(self).memory@[j] == old(self).memory@[j]
            },
    {
        if rom.len() > MAX_ROM_SIZE {
            return Err(Fault::RomTooLarge);
        }
        let mut i: usize = 0;
        while i < rom.len()
            invariant
                rom@.len() <= MAX_ROM_SIZE,
                i <= rom@.len(),
                *self == (Chip8 { memory: self.memory, ..*old(self) }),
                forall|j: int| 0 <= j < i ==> self.memory@[PROGRAM_START + j] == rom@[j],
                forall|j: int|
                    0 <= j < 4096 && !(PROGRAM_START <= j < PROGRAM_START + i)
                        ==> self.memory@[j] == old(self).memory@[j],
            decreases rom@.len() - i,
        {
            self.memory[PROGRAM_START + i] = rom[i];
            i = i + 1;
        }
        Ok(())
    }

    /// The X field of the latched opcode, widened for register indexing.
    pub fn get_x(&self) -> (x: usize)
        ensures
            x == op_x(self.opcode),
            x < 16,
    {
        proof {
            lemma_op_fields(self.opcode);
        }
        ((self.opcode & 0x0F00) >> 8u16) as usize
    }

    /// The Y field of the latched opcode, widened for register indexing.
    pub fn get_y(&self) -> (y: usize)
        ensures
            y == op_y(self.opcode),
            y < 16,
    {
        proof {
            lemma_op_fields(self.opcode);
        }
        ((self.opcode & 0x00F0) >> 4u16) as usize
    }

    /// The NNN field of the latched opcode, widened for addressing.
    pub fn get_addr(&self) -> (addr: usize)
        ensures
            addr == op_addr(self.opcode),
            addr < 4096,
    {
        proof {
            lemma_op_fields(self.opcode);
        }
        (self.opcode & 0x0FFF) as usize
    }

    /// The KK field of the latched opcode.
    pub fn get_kk(&self) -> (kk: u8)
        ensures
            kk == op_kk(self.opcode),
    {
        (self.opcode & 0x00FF) as u8
    }

    /// The N field of the latched opcode.
    pub fn get_nipple(&self) -> (n: u8)
        ensures
            n == op_n(self.opcode),
            n < 16,
    {
        proof {
            lemma_op_fields(self.opcode);
        }
        (self.opcode & 0x000F) as u8
    }

    /// Fetches the instruction word at the program counter into the opcode
    /// latch: `memory[PC] << 8 | memory[PC + 1]`.
    pub fn update_opcode(&mut self)
        requires
            old(self).program_counter + 1 < MEMORY_SIZE,
        ensures
            *final(self) == (Chip8 { opcode: spec_fetch(*old(self)), ..*old(self) }),
    {
        let hi: u8 = self.memory[self.program_counter];
        let lo: u8 = self.memory[self.program_counter + 1];
        self.opcode = ((hi as u16) << 8u16) | (lo as u16);
    }

    /// Advances past the current two-byte instruction.
    pub(crate) fn inc_pc(&mut self)
        requires
            old(self).program_counter + 2 <= usize::MAX,
        ensures
            *final(self) == (Chip8 {
                program_counter: (old(self).program_counter + 2) as usize,
                ..*old(self)
            }),
    {
        self.program_counter = self.program_counter + 2;
    }

    /// Draws the next byte from the machine-owned generator, stepping it.
    pub(crate) fn next_random(&mut self) -> (b: u8)
        ensures
            *final(self) == (Chip8 { rng: rng_step(old(self).rng), ..*old(self) }),
            b == rng_byte(old(self).rng),
    {
        let s0: u64 = self.rng;
        let s1: u64 = s0 ^ (s0 << 13u64);
        let s2: u64 = s1 ^ (s1 >> 7u64);
        let s3: u64 = s2 ^ (s2 << 17u64);
        self.rng = s3;
        (s3 & 0xFF) as u8
    }
}

} // verus!
