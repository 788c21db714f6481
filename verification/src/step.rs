//! Fetch, decode, dispatch and the timer step. `spec_cycle` is a total
//! function giving, for any machine state, the exact next state and result
//! of one `cycle` call; the executable `cycle` is verified to realise it.

use vstd::prelude::*;
use crate::machine::Chip8;
use crate::machine::Fault;
use crate::machine::MEMORY_SIZE;
use crate::machine::STACK_SIZE;
use crate::machine::spec_fetch;
use crate::machine::op_x;
use crate::machine::op_kk;
use crate::machine::op_n;
use crate::instructions::step_cls;
use crate::instructions::step_ret;
use crate::instructions::step_jp_addr;
use crate::instructions::step_call_addr;
use crate::instructions::step_se_vxkk;
use crate::instructions::step_sne_vxkk;
use crate::instructions::step_se_vxvy;
use crate::instructions::step_sne_vxvy;
use crate::instructions::step_ld_vxkk;
use crate::instructions::step_add_vxkk;
use crate::instructions::step_ld_vxvy;
use crate::instructions::step_or_vxvy;
use crate::instructions::step_and_vxvy;
use crate::instructions::step_xor_vxvy;
use crate::instructions::step_add_vxvy;
use crate::instructions::step_sub_vxvy;
use crate::instructions::step_shr_vx;
use crate::instructions::step_subn_vxvy;
use crate::instructions::step_shl_vx;
use crate::instructions::step_ld_iaddr;
use crate::instructions::step_jp_v0addr;
use crate::instructions::step_rnd_xkk;
use crate::instructions::step_skp_vx;
use crate::instructions::step_sknp_vx;
use crate::instructions::step_ld_vxdt;
use crate::instructions::step_ld_vxk;
use crate::instructions::step_ld_dtvx;
use crate::instructions::step_ld_stvx;
use crate::instructions::step_add_ivx;
use crate::instructions::step_ld_fvx;
use crate::instructions::step_ld_bvx;
use crate::instructions::step_ld_ivx;
use crate::instructions::step_ld_vxi;
use crate::sprite::step_drw_xyn;

verus! {

/// One timer count-down step: saturating at zero, never negative.
pub open spec fn tick(t: u8) -> u8 {
    if t > 0 {
        (t - 1) as u8
    } else {
        0
    }
}

/// The post-dispatch timer step: unless the machine is waiting on a key,
/// both timers count down once.
pub open spec fn apply_tick(s: Chip8) -> Chip8 {
    if s.wait_for_keys {
        s
    } else {
        Chip8 { delay_timer: tick(s.delay_timer), sound_timer: tick(s.sound_timer), ..s }
    }
}

/// Decode of the latched opcode and the effect of the selected handler:
/// the state after the instruction (before the timer step) and the result.
/// A fault leaves the state exactly as it was.
pub open spec fn spec_dispatch(m: Chip8) -> (Chip8, Result<(), Fault>) {
    let op = m.opcode;
    let fam = (op & 0xF000) >> 12u16;
    if fam == 0x0 {
        if op_kk(op) == 0xE0 {
            (step_cls(m), Ok(()))
        } else if op_kk(op) == 0xEE {
            if m.stack_pointer == 0 {
                (m, Err(Fault::StackUnderflow))
            } else {
                (step_ret(m), Ok(()))
            }
        } else {
            (m, Err(Fault::UnimplementedOpcode(op)))
        }
    } else if fam == 0x1 {
        (step_jp_addr(m), Ok(()))
    } else if fam == 0x2 {
        if m.stack_pointer >= STACK_SIZE {
            (m, Err(Fault::StackOverflow))
        } else {
            (step_call_addr(m), Ok(()))
        }
    } else if fam == 0x3 {
        (step_se_vxkk(m), Ok(()))
    } else if fam == 0x4 {
        (step_sne_vxkk(m), Ok(()))
    } else if fam == 0x5 {
        (step_se_vxvy(m), Ok(()))
    } else if fam == 0x6 {
        (step_ld_vxkk(m), Ok(()))
    } else if fam == 0x7 {
        (step_add_vxkk(m), Ok(()))
    } else if fam == 0x8 {
        if op_n(op) == 0x0 {
            (step_ld_vxvy(m), Ok(()))
        } else if op_n(op) == 0x1 {
            (step_or_vxvy(m), Ok(()))
        } else if op_n(op) == 0x2 {
            (step_and_vxvy(m), Ok(()))
        } else if op_n(op) == 0x3 {
            (step_xor_vxvy(m), Ok(()))
        } else if op_n(op) == 0x4 {
            (step_add_vxvy(m), Ok(()))
        } else if op_n(op) == 0x5 {
            (step_sub_vxvy(m), Ok(()))
        } else if op_n(op) == 0x6 {
            (step_shr_vx(m), Ok(()))
        } else if op_n(op) == 0x7 {
            (step_subn_vxvy(m), Ok(()))
        } else if op_n(op) == 0xE {
            (step_shl_vx(m), Ok(()))
        } else {
            (m, Err(Fault::UnimplementedOpcode(op)))
        }
    } else if fam == 0x9 {
        (step_sne_vxvy(m), Ok(()))
    } else if fam == 0xA {
        (step_ld_iaddr(m), Ok(()))
    } else if fam == 0xB {
        (step_jp_v0addr(m), Ok(()))
    } else if fam == 0xC {
        (step_rnd_xkk(m), Ok(()))
    } else if fam == 0xD {
        if m.index + op_n(op) > MEMORY_SIZE {
            (m, Err(Fault::MemoryOutOfBounds))
        } else {
            (step_drw_xyn(m), Ok(()))
        }
    } else if fam == 0xE {
        if op_kk(op) == 0x9E {
            if m.registers@[op_x(op)] >= 16 {
                (m, Err(Fault::MemoryOutOfBounds))
            } else {
                (step_skp_vx(m), Ok(()))
            }
        } else if op_kk(op) == 0xA1 {
            if m.registers@[op_x(op)] >= 16 {
                (m, Err(Fault::MemoryOutOfBounds))
            } else {
                (step_sknp_vx(m), Ok(()))
            }
        } else {
            (m, Err(Fault::UnimplementedOpcode(op)))
        }
    } else if op_kk(op) == 0x07 {
        (step_ld_vxdt(m), Ok(()))
    } else if op_kk(op) == 0x0A {
        (step_ld_vxk(m), Ok(()))
    } else if op_kk(op) == 0x15 {
        (step_ld_dtvx(m), Ok(()))
    } else if op_kk(op) == 0x18 {
        (step_ld_stvx(m), Ok(()))
    } else if op_kk(op) == 0x1E {
        if m.index + m.registers@[op_x(op)] >= MEMORY_SIZE {
            (m, Err(Fault::MemoryOutOfBounds))
        } else {
            (step_add_ivx(m), Ok(()))
        }
    } else if op_kk(op) == 0x29 {
        (step_ld_fvx(m), Ok(()))
    } else if op_kk(op) == 0x33 {
        if m.index + 2 >= MEMORY_SIZE {
            (m, Err(Fault::MemoryOutOfBounds))
        } else {
            (step_ld_bvx(m), Ok(()))
        }
    } else if op_kk(op) == 0x55 {
        if m.index + op_x(op) >= MEMORY_SIZE {
            (m, Err(Fault::MemoryOutOfBounds))
        } else {
            (step_ld_ivx(m), Ok(()))
        }
    } else if op_kk(op) == 0x65 {
        if m.index + op_x(op) >= MEMORY_SIZE {
            (m, Err(Fault::MemoryOutOfBounds))
        } else {
            (step_ld_vxi(m), Ok(()))
        }
    } else {
        (m, Err(Fault::UnimplementedOpcode(op)))
    }
}

/// One whole machine cycle: fetch the word at the program counter into the
/// opcode latch, dispatch, then (on success, and unless the machine is
/// waiting on a key) count both timers down. A fault leaves everything
/// except the latch unchanged; a program counter with no room for a whole
/// instruction word faults before even the latch moves.
pub open spec fn spec_cycle(pre: Chip8) -> (Chip8, Result<(), Fault>) {
    if pre.program_counter + 1 >= MEMORY_SIZE {
        (pre, Err(Fault::MemoryOutOfBounds))
    } else {
        let m = (Chip8 { opcode: spec_fetch(pre), ..pre });
        let sr = spec_dispatch(m);
        if sr.1 is Ok {
            (apply_tick(sr.0), Ok(()))
        } else {
            sr
        }
    }
}

impl Chip8 {
    /// Performs exactly one fetch-decode-execute step, as given by
    /// [`spec_cycle`]: the returned fault, if any, and the whole new state
    /// are pinned down for every starting state.
    #[verifier::rlimit(100)]
    pub fn cycle(&mut self) -> (r: Result<(), Fault>)
        requires
            old(self).wf(),
        ensures
            final(self).wf(),
            *final(self) == spec_cycle(*old(self)).0,
            r == spec_cycle(*old(self)).1,
    {
        if self.program_counter >= MEMORY_SIZE - 1 {
            return Err(Fault::MemoryOutOfBounds);
        }
        self.update_opcode();
        let ghost m = *self;
        let identifier: u16 = (self.opcode & 0xF000) >> 12u16;
        let r: Result<(), Fault> = match identifier {
            0x0 => {
                let kk: u8 = self.get_kk();
                if kk == 0xE0 {
                    self.cls();
                    Ok(())
                } else if kk == 0xEE {
                    self.ret()
                } else {
                    Err(Fault::UnimplementedOpcode(self.opcode))
                }
            },
            0x1 => {
                self.jp_addr();
                Ok(())
            },
            0x2 => self.call_addr(),
            0x3 => {
                self.se_vxkk();
                Ok(())
            },
            0x4 => {
                self.sne_vxkk();
                Ok(())
            },
            0x5 => {
                self.se_vxvy();
                Ok(())
            },
            0x6 => {
                self.ld_vxkk();
                Ok(())
            },
            0x7 => {
                self.add_vxkk();
                Ok(())
            },
            0x8 => {
                let n: u8 = self.get_nipple();
                if n == 0x0 {
                    self.ld_vxvy();
                    Ok(())
                } else if n == 0x1 {
                    self.or_vxvy();
                    Ok(())
                } else if n == 0x2 {
                    self.and_vxvy();
                    Ok(())
                } else if n == 0x3 {
                    self.xor_vxvy();
                    Ok(())
                } else if n == 0x4 {
                    self.add_vxvy();
                    Ok(())
                } else if n == 0x5 {
                    self.sub_vxvy();
                    Ok(())
                } else if n == 0x6 {
                    self.shr_vx();
                    Ok(())
                } else if n == 0x7 {
                    self.subn_vxvy();
                    Ok(())
                } else if n == 0xE {
                    self.shl_vx();
                    Ok(())
                } else {
                    Err(Fault::UnimplementedOpcode(self.opcode))
                }
            },
            0x9 => {
                self.sne_vxvy();
                Ok(())
            },
            0xA => {
                self.ld_iaddr();
                Ok(())
            },
            0xB => {
                self.jp_v0addr();
                Ok(())
            },
            0xC => {
                self.rnd_xkk();
                Ok(())
            },
            0xD => self.drw_xyn(),
            0xE => {
                let kk: u8 = self.get_kk();
                if kk == 0x9E {
                    self.skp_vx()
                } else if kk == 0xA1 {
                    self.sknp_vx()
                } else {
                    Err(Fault::UnimplementedOpcode(self.opcode))
                }
            },
            0xF => {
                let kk: u8 = self.get_kk();
                if kk == 0x07 {
                    self.ld_vxdt();
                    Ok(())
                } else if kk == 0x0A {
                    self.ld_vxk();
                    Ok(())
                } else if kk == 0x15 {
                    self.ld_dtvx();
                    Ok(())
                } else if kk == 0x18 {
                    self.ld_stvx();
                    Ok(())
                } else if kk == 0x1E {
                    self.add_ivx()
                } else if kk == 0x29 {
                    self.ld_fvx();
                    Ok(())
                } else if kk == 0x33 {
                    self.ld_bvx()
                } else if kk == 0x55 {
                    self.ld_ivx()
                } else if kk == 0x65 {
                    self.ld_vxi()
                } else {
                    Err(Fault::UnimplementedOpcode(self.opcode))
                }
            },
            _ => {
                proof {
                    let op = m.opcode;
                    assert(((op & 0xF000) >> 12u16) <= 15) by (bit_vector);
                }
                Err(Fault::UnimplementedOpcode(self.opcode))
            },
        };
        proof {
            assert(*self == spec_dispatch(m).0 && r == spec_dispatch(m).1);
        }
        match r {
            Err(f) => Err(f),
            Ok(()) => {
                let ghost mid = *self;
                if !self.wait_for_keys {
                    if self.delay_timer > 0 {
                        self.delay_timer = self.delay_timer - 1;
                    }
                    if self.sound_timer > 0 {
                        self.sound_timer = self.sound_timer - 1;
                    }
                }
                proof {
                    assert(*self =~= apply_tick(mid));
                }
                Ok(())
            },
        }
    }
}

} // verus!
