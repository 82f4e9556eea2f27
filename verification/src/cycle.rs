//! The interpreter engine: one fetch-decode-execute step per call.
//!
//! [`spec_step`] is the transition function of the machine, stated over
//! the mathematical view: it covers the halted and waiting-for-key modes,
//! the fetch with its bounds check, and every opcode's semantics.
//! [`Chip8::step`] implements it for a caller-supplied random byte, and
//! [`Chip8::emulate_cycle`] draws that byte from the ambient random
//! number generator.
//!
//! Documented convention choices where CHIP-8 references disagree: the
//! shift opcodes operate on `Vx` in place with VF receiving the dropped
//! bit, and the add-to-index opcode wraps within the 4 KiB address space
//! without touching VF.

use vstd::prelude::*;

verus! {

use crate::decode::{Instruction, decode, instr_wf, spec_decode};
use crate::draw::spec_draw_result;
use crate::machine::{Chip8, CycleStatus, Fault, MachineView, filled, wf, SCREEN_SIZE, STACK_DEPTH};
use vstd::arithmetic::div_mod::lemma_mod_multiples_vanish;

/// Addition wrapping at 8 bits.
pub open spec fn wrap_add(a: u8, b: u8) -> u8 {
    ((a + b) % 256) as u8
}

/// Subtraction wrapping at 8 bits.
pub open spec fn wrap_sub(a: u8, b: u8) -> u8 {
    ((a - b) % 256) as u8
}

/// `v` with register `x` set to `val`.
pub open spec fn set_reg(v: MachineView, x: int, val: u8) -> MachineView {
    MachineView { registers: v.registers.update(x, val), ..v }
}

/// `v` with the program counter moved past one more instruction when
/// `cond` holds.
pub open spec fn skip_if(v: MachineView, cond: bool) -> MachineView {
    if cond {
        MachineView { program_counter: (v.program_counter + 2) as u16, ..v }
    } else {
        v
    }
}

/// `v` halted with fault `f` recorded.
pub open spec fn halted(v: MachineView, f: Fault) -> (MachineView, CycleStatus) {
    (MachineView { fault: Some(f), ..v }, CycleStatus::Faulted(f))
}

/// The lowest-numbered pressed key at or above index `from`, if any.
pub open spec fn lowest_pressed(keys: Seq<bool>, from: int) -> Option<u8>
    decreases 16 - from,
{
    if from < 0 || from >= 16 {
        None
    } else if keys[from] {
        Some(from as u8)
    } else {
        lowest_pressed(keys, from + 1)
    }
}

/// The big-endian 16-bit word at the program counter.
pub open spec fn fetch_word(v: MachineView) -> u16 {
    (v.memory[v.program_counter as int] * 256 + v.memory[v.program_counter as int + 1]) as u16
}

/// The semantics of one decoded instruction, applied to a machine whose
/// program counter has already moved past it. `rnd` is the byte the
/// random-number opcode masks.
pub open spec fn spec_exec(v: MachineView, ins: Instruction, rnd: u8) -> (MachineView, CycleStatus) {
    match ins {
        Instruction::ClearScreen => (
            MachineView { framebuffer: Seq::new(2048, |q: int| false), ..v },
            CycleStatus::Executed,
        ),
        Instruction::Return => {
            if v.stack.len() == 0 {
                halted(v, Fault::StackUnderflow)
            } else {
                (
                    MachineView {
                        program_counter: v.stack.last(),
                        stack: v.stack.drop_last(),
                        ..v
                    },
                    CycleStatus::Executed,
                )
            }
        },
        Instruction::Jump { nnn } => (
            MachineView { program_counter: nnn, ..v },
            CycleStatus::Executed,
        ),
        Instruction::Call { nnn } => {
            if v.stack.len() >= 16 {
                halted(v, Fault::StackOverflow)
            } else {
                (
                    MachineView {
                        stack: v.stack.push(v.program_counter),
                        program_counter: nnn,
                        ..v
                    },
                    CycleStatus::Executed,
                )
            }
        },
        Instruction::SkipEqImm { x, nn } => (
            skip_if(v, v.registers[x as int] == nn),
            CycleStatus::Executed,
        ),
        Instruction::SkipNeImm { x, nn } => (
            skip_if(v, v.registers[x as int] != nn),
            CycleStatus::Executed,
        ),
        Instruction::SkipEqReg { x, y } => (
            skip_if(v, v.registers[x as int] == v.registers[y as int]),
            CycleStatus::Executed,
        ),
        Instruction::SkipNeReg { x, y } => (
            skip_if(v, v.registers[x as int] != v.registers[y as int]),
            CycleStatus::Executed,
        ),
        Instruction::SetImm { x, nn } => (set_reg(v, x as int, nn), CycleStatus::Executed),
        Instruction::AddImm { x, nn } => (
            set_reg(v, x as int, wrap_add(v.registers[x as int], nn)),
            CycleStatus::Executed,
        ),
        Instruction::Assign { x, y } => (
            set_reg(v, x as int, v.registers[y as int]),
            CycleStatus::Executed,
        ),
        Instruction::Or { x, y } => (
            set_reg(v, x as int, v.registers[x as int] | v.registers[y as int]),
            CycleStatus::Executed,
        ),
        Instruction::And { x, y } => (
            set_reg(v, x as int, v.registers[x as int] & v.registers[y as int]),
            CycleStatus::Executed,
        ),
        Instruction::Xor { x, y } => (
            set_reg(v, x as int, v.registers[x as int] ^ v.registers[y as int]),
            CycleStatus::Executed,
        ),
        Instruction::AddCarry { x, y } => {
            let a = v.registers[x as int];
            let b = v.registers[y as int];
            let v1 = set_reg(v, x as int, wrap_add(a, b));
            (
                set_reg(v1, 15, if a + b > 255 { 1u8 } else { 0u8 }),
                CycleStatus::Executed,
            )
        },
        Instruction::SubBorrow { x, y } => {
            let a = v.registers[x as int];
            let b = v.registers[y as int];
            let v1 = set_reg(v, x as int, wrap_sub(a, b));
            (
                set_reg(v1, 15, if a >= b { 1u8 } else { 0u8 }),
                CycleStatus::Executed,
            )
        },
        Instruction::SubBorrowRev { x, y } => {
            let a = v.registers[x as int];
            let b = v.registers[y as int];
            let v1 = set_reg(v, x as int, wrap_sub(b, a));
            (
                set_reg(v1, 15, if b >= a { 1u8 } else { 0u8 }),
                CycleStatus::Executed,
            )
        },
        Instruction::ShiftRight { x, y } => {
            let a = v.registers[x as int];
            let v1 = set_reg(v, x as int, a >> 1);
            (set_reg(v1, 15, a & 1), CycleStatus::Executed)
        },
        Instruction::ShiftLeft { x, y } => {
            let a = v.registers[x as int];
            let v1 = set_reg(v, x as int, (((a as u16) << 1) & 0xFF) as u8);
            (set_reg(v1, 15, a >> 7), CycleStatus::Executed)
        },
        Instruction::SetIndex { nnn } => (
            MachineView { index_register: nnn, ..v },
            CycleStatus::Executed,
        ),
        Instruction::JumpOffset { nnn } => {
            if nnn + v.registers[0] > 0xFFF {
                halted(v, Fault::MemoryOutOfBounds)
            } else {
                (
                    MachineView { program_counter: (nnn + v.registers[0]) as u16, ..v },
                    CycleStatus::Executed,
                )
            }
        },
        Instruction::Random { x, nn } => (
            set_reg(v, x as int, rnd & nn),
            CycleStatus::Executed,
        ),
        Instruction::Draw { x, y, n } => spec_draw_result(v, x, y, n),
        Instruction::SkipKeyPressed { x } => (
            skip_if(v, v.keypad[(v.registers[x as int] as int) % 16]),
            CycleStatus::Executed,
        ),
        Instruction::SkipKeyNotPressed { x } => (
            skip_if(v, !v.keypad[(v.registers[x as int] as int) % 16]),
            CycleStatus::Executed,
        ),
        Instruction::ReadDelay { x } => (
            set_reg(v, x as int, v.delay_timer),
            CycleStatus::Executed,
        ),
        Instruction::WaitKey { x } => {
            match lowest_pressed(v.keypad, 0) {
                Some(k) => (set_reg(v, x as int, k), CycleStatus::Executed),
                None => (
                    MachineView { awaiting_key: Some(x), ..v },
                    CycleStatus::AwaitingKey,
                ),
            }
        },
        Instruction::SetDelay { x } => (
            MachineView { delay_timer: v.registers[x as int], ..v },
            CycleStatus::Executed,
        ),
        Instruction::SetSound { x } => (
            MachineView { sound_timer: v.registers[x as int], ..v },
            CycleStatus::Executed,
        ),
        Instruction::AddIndex { x } => (
            MachineView {
                index_register: ((v.index_register + v.registers[x as int]) % 0x1000) as u16,
                ..v
            },
            CycleStatus::Executed,
        ),
        Instruction::FontIndex { x } => (
            MachineView {
                index_register: (0x50 + 5 * ((v.registers[x as int] as int) % 16)) as u16,
                ..v
            },
            CycleStatus::Executed,
        ),
        Instruction::StoreBcd { x } => {
            if v.index_register + 3 > 4096 {
                halted(v, Fault::MemoryOutOfBounds)
            } else {
                let i = v.index_register as int;
                let a = v.registers[x as int];
                (
                    MachineView {
                        memory: v.memory.update(i, ((a as int) / 100) as u8).update(
                            i + 1,
                            (((a as int) / 10) % 10) as u8,
                        ).update(i + 2, ((a as int) % 10) as u8),
                        ..v
                    },
                    CycleStatus::Executed,
                )
            }
        },
        Instruction::StoreRegs { x } => {
            if v.index_register + x + 1 > 4096 {
                halted(v, Fault::MemoryOutOfBounds)
            } else {
                let i = v.index_register as int;
                (
                    MachineView {
                        memory: Seq::new(
                            v.memory.len(),
                            |k: int|
                                if i <= k <= i + x as int {
                                    v.registers[k - i]
                                } else {
                                    v.memory[k]
                                },
                        ),
                        ..v
                    },
                    CycleStatus::Executed,
                )
            }
        },
        Instruction::LoadRegs { x } => {
            if v.index_register + x + 1 > 4096 {
                halted(v, Fault::MemoryOutOfBounds)
            } else {
                let i = v.index_register as int;
                (
                    MachineView {
                        registers: Seq::new(
                            v.registers.len(),
                            |k: int|
                                if 0 <= k <= x as int {
                                    v.memory[i + k]
                                } else {
                                    v.registers[k]
                                },
                        ),
                        ..v
                    },
                    CycleStatus::Executed,
                )
            }
        },
    }
}

/// The transition function of the machine: what one cycle does to a
/// machine state, given the byte `rnd` that a random-number opcode would
/// mask. A halted machine does not move; a machine waiting for a key
/// resumes only when one is pressed; otherwise one instruction is
/// fetched (faulting if the fetch would pass the end of memory), the
/// program counter moves past it, and the instruction executes, an
/// undecodable word counting as a skipped no-op.
pub open spec fn spec_step(v: MachineView, rnd: u8) -> (MachineView, CycleStatus) {
    match v.fault {
        Some(f) => (v, CycleStatus::Faulted(f)),
        None => match v.awaiting_key {
            Some(x) => match lowest_pressed(v.keypad, 0) {
                Some(k) => (
                    MachineView {
                        registers: v.registers.update(x as int, k),
                        awaiting_key: None,
                        ..v
                    },
                    CycleStatus::Executed,
                ),
                None => (v, CycleStatus::AwaitingKey),
            },
            None => {
                if v.program_counter > 0xFFE {
                    halted(v, Fault::MemoryOutOfBounds)
                } else {
                    let v2 = MachineView {
                        program_counter: (v.program_counter + 2) as u16,
                        ..v
                    };
                    match spec_decode(fetch_word(v)) {
                        None => (v2, CycleStatus::UnknownOpcode),
                        Some(ins) => spec_exec(v2, ins, rnd),
                    }
                }
            },
        },
    }
}

/// Relies on rand::random: one byte from the ambient thread-local
/// generator. Nothing is assumed of its value.
#[verifier::external_body]
fn random_byte() -> (r: u8) {
    rand::random::<u8>()
}

impl Chip8 {
    fn first_pressed_key(&self) -> (r: Option<u8>)
        requires
            wf(self@),
        ensures
            r == lowest_pressed(self@.keypad, 0),
    {
        let mut k: usize = 0;
        while k < 16
            invariant
                wf(self@),
                k <= 16,
                lowest_pressed(self@.keypad, 0) == lowest_pressed(self@.keypad, k as int),
            decreases 16 - k,
        {
            if self.keypad[k] {
                return Some(k as u8);
            }
            k = k + 1;
        }
        None
    }

    /// Execute one already-decoded instruction on a machine whose program
    /// counter has moved past it.
    #[verifier::rlimit(100)]
    pub fn exec_instr(&mut self, ins: Instruction, rnd: u8) -> (r: CycleStatus)
        requires
            wf(old(self)@),
            instr_wf(ins),
            old(self)@.program_counter <= 0x1000,
        ensures
            wf(final(self)@),
            final(self)@ == spec_exec(old(self)@, ins, rnd).0,
            r == spec_exec(old(self)@, ins, rnd).1,
    {
        match ins {
            Instruction::ClearScreen => {
                self.framebuffer = filled(false, SCREEN_SIZE);
                proof {
                    assert(self.framebuffer@ =~= Seq::new(2048, |q: int| false));
                    assert(self@ =~= spec_exec(old(self)@, ins, rnd).0);
                }
                CycleStatus::Executed
            },
            Instruction::Return => {
                if self.stack.len() == 0 {
                    self.fault = Some(Fault::StackUnderflow);
                    proof {
                        assert(self@ =~= spec_exec(old(self)@, ins, rnd).0);
                    }
                    CycleStatus::Faulted(Fault::StackUnderflow)
                } else {
                    let target = self.stack.pop().unwrap();
                    self.program_counter = target;
                    proof {
                        assert(self@ =~= spec_exec(old(self)@, ins, rnd).0);
                    }
                    CycleStatus::Executed
                }
            },
            Instruction::Jump { nnn } => {
                self.program_counter = nnn;
                proof {
                    assert(self@ =~= spec_exec(old(self)@, ins, rnd).0);
                }
                CycleStatus::Executed
            },
            Instruction::Call { nnn } => {
                if self.stack.len() >= STACK_DEPTH {
                    self.fault = Some(Fault::StackOverflow);
                    proof {
                        assert(self@ =~= spec_exec(old(self)@, ins, rnd).0);
                    }
                    CycleStatus::Faulted(Fault::StackOverflow)
                } else {
                    self.stack.push(self.program_counter);
                    self.program_counter = nnn;
                    proof {
                        assert(self@ =~= spec_exec(old(self)@, ins, rnd).0);
                    }
                    CycleStatus::Executed
                }
            },
            Instruction::SkipEqImm { x, nn } => {
                if self.registers[x as usize] == nn {
                    self.program_counter = self.program_counter + 2;
                }
                proof {
                    assert(self@ =~= spec_exec(old(self)@, ins, rnd).0);
                }
                CycleStatus::Executed
            },
            Instruction::SkipNeImm { x, nn } => {
                if self.registers[x as usize] != nn {
                    self.program_counter = self.program_counter + 2;
                }
                proof {
                    assert(self@ =~= spec_exec(old(self)@, ins, rnd).0);
                }
                CycleStatus::Executed
            },
            Instruction::SkipEqReg { x, y } => {
                if self.registers[x as usize] == self.registers[y as usize] {
                    self.program_counter = self.program_counter + 2;
                }
                proof {
                    assert(self@ =~= spec_exec(old(self)@, ins, rnd).0);
                }
                CycleStatus::Executed
            },
            Instruction::SkipNeReg { x, y } => {
                if self.registers[x as usize] != self.registers[y as usize] {
                    self.program_counter = self.program_counter + 2;
                }
                proof {
                    assert(self@ =~= spec_exec(old(self)@, ins, rnd).0);
                }
                CycleStatus::Executed
            },
            Instruction::SetImm { x, nn } => {
                self.registers.set(x as usize, nn);
                proof {
                    assert(self@ =~= spec_exec(old(self)@, ins, rnd).0);
                }
                CycleStatus::Executed
            },
            Instruction::AddImm { x, nn } => {
                let a = self.registers[x as usize];
                let sum = a as u16 + nn as u16;
                self.registers.set(x as usize, (sum % 256) as u8);
                proof {
                    assert(self@ =~= spec_exec(old(self)@, ins, rnd).0);
                }
                CycleStatus::Executed
            },
            Instruction::Assign { x, y } => {
                let b = self.registers[y as usize];
                self.registers.set(x as usize, b);
                proof {
                    assert(self@ =~= spec_exec(old(self)@, ins, rnd).0);
                }
                CycleStatus::Executed
            },
            Instruction::Or { x, y } => {
                let a = self.registers[x as usize];
                let b = self.registers[y as usize];
                self.registers.set(x as usize, a | b);
                proof {
                    assert(self@ =~= spec_exec(old(self)@, ins, rnd).0);
                }
                CycleStatus::Executed
            },
            Instruction::And { x, y } => {
                let a = self.registers[x as usize];
                let b = self.registers[y as usize];
                self.registers.set(x as usize, a & b);
                proof {
                    assert(self@ =~= spec_exec(old(self)@, ins, rnd).0);
                }
                CycleStatus::Executed
            },
            Instruction::Xor { x, y } => {
                let a = self.registers[x as usize];
                let b = self.registers[y as usize];
                self.registers.set(x as usize, a ^ b);
                proof {
                    assert(self@ =~= spec_exec(old(self)@, ins, rnd).0);
                }
                CycleStatus::Executed
            },
            Instruction::AddCarry { x, y } => {
                let a = self.registers[x as usize];
                let b = self.registers[y as usize];
                let sum = a as u16 + b as u16;
                self.registers.set(x as usize, (sum % 256) as u8);
                self.registers.set(15, if sum > 255 { 1 } else { 0 });
                proof {
                    assert(self@ =~= spec_exec(old(self)@, ins, rnd).0);
                }
                CycleStatus::Executed
            },
            Instruction::SubBorrow { x, y } => {
                let a = self.registers[x as usize];
                let b = self.registers[y as usize];
                let d = 256u16 + a as u16 - b as u16;
                proof {
                    lemma_mod_multiples_vanish(1, a - b, 256);
                }
                self.registers.set(x as usize, (d % 256) as u8);
                self.registers.set(15, if a >= b { 1 } else { 0 });
                proof {
                    assert(self@ =~= spec_exec(old(self)@, ins, rnd).0);
                }
                CycleStatus::Executed
            },
            Instruction::SubBorrowRev { x, y } => {
                let a = self.registers[x as usize];
                let b = self.registers[y as usize];
                let d = 256u16 + b as u16 - a as u16;
                proof {
                    lemma_mod_multiples_vanish(1, b - a, 256);
                }
                self.registers.set(x as usize, (d % 256) as u8);
                self.registers.set(15, if b >= a { 1 } else { 0 });
                proof {
                    assert(self@ =~= spec_exec(old(self)@, ins, rnd).0);
                }
                CycleStatus::Executed
            },
            Instruction::ShiftRight { x, y } => {
                let a = self.registers[x as usize];
                self.registers.set(x as usize, a >> 1);
                self.registers.set(15, a & 1);
                proof {
                    assert(self@ =~= spec_exec(old(self)@, ins, rnd).0);
                }
                CycleStatus::Executed
            },
            Instruction::ShiftLeft { x, y } => {
                let a = self.registers[x as usize];
                self.registers.set(x as usize, (((a as u16) << 1) & 0xFF) as u8);
                self.registers.set(15, a >> 7);
                proof {
                    assert(self@ =~= spec_exec(old(self)@, ins, rnd).0);
                }
                CycleStatus::Executed
            },
            Instruction::SetIndex { nnn } => {
                self.index_register = nnn;
                proof {
                    assert(self@ =~= spec_exec(old(self)@, ins, rnd).0);
                }
                CycleStatus::Executed
            },
            Instruction::JumpOffset { nnn } => {
                let target = nnn + self.registers[0] as u16;
                if target > 0xFFF {
                    self.fault = Some(Fault::MemoryOutOfBounds);
                    proof {
                        assert(self@ =~= spec_exec(old(self)@, ins, rnd).0);
                    }
                    CycleStatus::Faulted(Fault::MemoryOutOfBounds)
                } else {
                    self.program_counter = target;
                    proof {
                        assert(self@ =~= spec_exec(old(self)@, ins, rnd).0);
                    }
                    CycleStatus::Executed
                }
            },
            Instruction::Random { x, nn } => {
                self.registers.set(x as usize, rnd & nn);
                proof {
                    assert(self@ =~= spec_exec(old(self)@, ins, rnd).0);
                }
                CycleStatus::Executed
            },
            Instruction::Draw { x, y, n } => {
                let st = self.op_draw(x, y, n);
                st
            },
            Instruction::SkipKeyPressed { x } => {
                let k = (self.registers[x as usize] % 16) as usize;
                if self.keypad[k] {
                    self.program_counter = self.program_counter + 2;
                }
                proof {
                    assert(self@ =~= spec_exec(old(self)@, ins, rnd).0);
                }
                CycleStatus::Executed
            },
            Instruction::SkipKeyNotPressed { x } => {
                let k = (self.registers[x as usize] % 16) as usize;
                if !self.keypad[k] {
                    self.program_counter = self.program_counter + 2;
                }
                proof {
                    assert(self@ =~= spec_exec(old(self)@, ins, rnd).0);
                }
                CycleStatus::Executed
            },
            Instruction::ReadDelay { x } => {
                let t = self.delay_timer;
                self.registers.set(x as usize, t);
                proof {
                    assert(self@ =~= spec_exec(old(self)@, ins, rnd).0);
                }
                CycleStatus::Executed
            },
            Instruction::WaitKey { x } => {
                match self.first_pressed_key() {
                    Some(k) => {
                        self.registers.set(x as usize, k);
                        proof {
                            assert(self@ =~= spec_exec(old(self)@, ins, rnd).0);
                        }
                        CycleStatus::Executed
                    },
                    None => {
                        self.awaiting_key = Some(x);
                        proof {
                            assert(self@ =~= spec_exec(old(self)@, ins, rnd).0);
                        }
                        CycleStatus::AwaitingKey
                    },
                }
            },
            Instruction::SetDelay { x } => {
                self.delay_timer = self.registers[x as usize];
                proof {
                    assert(self@ =~= spec_exec(old(self)@, ins, rnd).0);
                }
                CycleStatus::Executed
            },
            Instruction::SetSound { x } => {
                self.sound_timer = self.registers[x as usize];
                proof {
                    assert(self@ =~= spec_exec(old(self)@, ins, rnd).0);
                }
                CycleStatus::Executed
            },
            Instruction::AddIndex { x } => {
                let t = (self.index_register as usize + self.registers[x as usize] as usize)
                    % 0x1000;
                self.index_register = t as u16;
                proof {
                    assert(self@ =~= spec_exec(old(self)@, ins, rnd).0);
                }
                CycleStatus::Executed
            },
            Instruction::FontIndex { x } => {
                let low = self.registers[x as usize] % 16;
                self.index_register = 0x50 + 5 * low as u16;
                proof {
                    assert(self@ =~= spec_exec(old(self)@, ins, rnd).0);
                }
                CycleStatus::Executed
            },
            Instruction::StoreBcd { x } => {
                let i = self.index_register as usize;
                if i + 3 > 4096 {
                    self.fault = Some(Fault::MemoryOutOfBounds);
                    proof {
                        assert(self@ =~= spec_exec(old(self)@, ins, rnd).0);
                    }
                    CycleStatus::Faulted(Fault::MemoryOutOfBounds)
                } else {
                    let a = self.registers[x as usize];
                    self.memory.set(i, a / 100);
                    self.memory.set(i + 1, (a / 10) % 10);
                    self.memory.set(i + 2, a % 10);
                    proof {
                        assert(self@ =~= spec_exec(old(self)@, ins, rnd).0);
                    }
                    CycleStatus::Executed
                }
            },
            Instruction::StoreRegs { x } => {
                let i = self.index_register as usize;
                if i + (x as usize) + 1 > 4096 {
                    self.fault = Some(Fault::MemoryOutOfBounds);
                    proof {
                        assert(self@ =~= spec_exec(old(self)@, ins, rnd).0);
                    }
                    CycleStatus::Faulted(Fault::MemoryOutOfBounds)
                } else {
                    let mut k: usize = 0;
                    while k <= x as usize
                        invariant
                            wf(old(self)@),
                            x < 16,
                            k <= x as usize + 1,
                            i == old(self)@.index_register as int,
                            i + x as usize + 1 <= 4096,
                            self.memory@.len() == 4096,
                            forall|j: int|
                                i <= j < i + k ==> self.memory@[j] == old(self)@.registers[j - i],
                            forall|j: int|
                                0 <= j < 4096 && !(i <= j < i + k) ==> self.memory@[j] == old(
                                    self,
                                )@.memory[j],
                            self.registers@ == old(self)@.registers,
                            self.index_register == old(self).index_register,
                            self.program_counter == old(self).program_counter,
                            self.stack@ == old(self)@.stack,
                            self.delay_timer == old(self).delay_timer,
                            self.sound_timer == old(self).sound_timer,
                            self.framebuffer@ == old(self)@.framebuffer,
                            self.keypad@ == old(self)@.keypad,
                            self.awaiting_key == old(self).awaiting_key,
                            self.fault == old(self).fault,
                        decreases x as usize + 1 - k,
                    {
                        let val = self.registers[k];
                        self.memory.set(i + k, val);
                        k = k + 1;
                    }
                    proof {
                        assert(self.memory@ =~= spec_exec(old(self)@, ins, rnd).0.memory);
                        assert(self@ =~= spec_exec(old(self)@, ins, rnd).0);
                    }
                    CycleStatus::Executed
                }
            },
            Instruction::LoadRegs { x } => {
                let i = self.index_register as usize;
                if i + (x as usize) + 1 > 4096 {
                    self.fault = Some(Fault::MemoryOutOfBounds);
                    proof {
                        assert(self@ =~= spec_exec(old(self)@, ins, rnd).0);
                    }
                    CycleStatus::Faulted(Fault::MemoryOutOfBounds)
                } else {
                    let mut k: usize = 0;
                    while k <= x as usize
                        invariant
                            wf(old(self)@),
                            x < 16,
                            k <= x as usize + 1,
                            i == old(self)@.index_register as int,
                            i + x as usize + 1 <= 4096,
                            self.registers@.len() == 16,
                            forall|j: int|
                                0 <= j < k ==> self.registers@[j] == old(self)@.memory[i + j],
                            forall|j: int|
                                k <= j < 16 ==> self.registers@[j] == old(self)@.registers[j],
                            self.memory@ == old(self)@.memory,
                            self.index_register == old(self).index_register,
                            self.program_counter == old(self).program_counter,
                            self.stack@ == old(self)@.stack,
                            self.delay_timer == old(self).delay_timer,
                            self.sound_timer == old(self).sound_timer,
                            self.framebuffer@ == old(self)@.framebuffer,
                            self.keypad@ == old(self)@.keypad,
                            self.awaiting_key == old(self).awaiting_key,
                            self.fault == old(self).fault,
                        decreases x as usize + 1 - k,
                    {
                        let val = self.memory[i + k];
                        self.registers.set(k, val);
                        k = k + 1;
                    }
                    proof {
                        assert(self.registers@ =~= spec_exec(old(self)@, ins, rnd).0.registers);
                        assert(self@ =~= spec_exec(old(self)@, ins, rnd).0);
                    }
                    CycleStatus::Executed
                }
            },
        }
    }

    /// One fetch-decode-execute step, with the random byte supplied by
    /// the caller. The machine afterwards, and the returned status, are
    /// exactly what [`spec_step`] says.
    pub fn step(&mut self, rnd: u8) -> (r: CycleStatus)
        requires
            wf(old(self)@),
        ensures
            wf(final(self)@),
            final(self)@ == spec_step(old(self)@, rnd).0,
            r == spec_step(old(self)@, rnd).1,
    {
        if let Some(f) = self.fault {
            return CycleStatus::Faulted(f);
        }
        if let Some(x) = self.awaiting_key {
            match self.first_pressed_key() {
                Some(k) => {
                    self.registers.set(x as usize, k);
                    self.awaiting_key = None;
                    proof {
                        assert(self@ =~= spec_step(old(self)@, rnd).0);
                    }
                    return CycleStatus::Executed;
                },
                None => {
                    return CycleStatus::AwaitingKey;
                },
            }
        }
        if self.program_counter > 0xFFE {
            self.fault = Some(Fault::MemoryOutOfBounds);
            proof {
                assert(self@ =~= spec_step(old(self)@, rnd).0);
            }
            return CycleStatus::Faulted(Fault::MemoryOutOfBounds);
        }
        let pc = self.program_counter as usize;
        let word = (self.memory[pc] as u16) * 256 + (self.memory[pc + 1] as u16);
        self.program_counter = self.program_counter + 2;
        proof {
            assert(word == fetch_word(old(self)@));
            assert(self@ =~= (MachineView {
                program_counter: (old(self)@.program_counter + 2) as u16,
                ..old(self)@
            }));
        }
        match decode(word) {
            None => CycleStatus::UnknownOpcode,
            Some(ins) => {
                let ghost v2 = self@;
                let st = self.exec_instr(ins, rnd);
                proof {
                    assert(spec_step(old(self)@, rnd) == spec_exec(v2, ins, rnd));
                }
                st
            },
        }
    }

    /// One fetch-decode-execute step, masking the random-number opcode
    /// with a freshly drawn byte: for some byte value, the machine moves
    /// exactly as [`spec_step`] says.
    pub fn emulate_cycle(&mut self) -> (r: CycleStatus)
        requires
            wf(old(self)@),
        ensures
            wf(final(self)@),
            exists|rb: u8| (final(self)@, r) == #[trigger] spec_step(old(self)@, rb),
    {
        let rnd = random_byte();
        let st = self.step(rnd);
        proof {
            assert((self@, st) == spec_step(old(self)@, rnd));
        }
        st
    }
}

} // verus!
