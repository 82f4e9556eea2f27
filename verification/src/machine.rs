//! The CHIP-8 machine state: memory, registers, stack, timers,
//! framebuffer and keypad, with its initial contents (font table included)
//! and the state operations that sit outside the instruction cycle:
//! loading a program image and ticking the two hardware timers.

use vstd::prelude::*;

verus! {

/// Bytes of addressable memory.
pub const MEM_SIZE: usize = 4096;

/// Number of general-purpose registers (V0 through VF).
pub const NUM_REGS: usize = 16;

/// Maximum call-stack depth.
pub const STACK_DEPTH: usize = 16;

/// Framebuffer width in pixels.
pub const SCREEN_WIDTH: usize = 64;

/// Framebuffer height in pixels.
pub const SCREEN_HEIGHT: usize = 32;

/// Total framebuffer pixels.
pub const SCREEN_SIZE: usize = 2048;

/// Number of keypad keys.
pub const NUM_KEYS: usize = 16;

/// Address at which a loaded program begins, and the initial program counter.
pub const PROGRAM_START: u16 = 0x200;

/// Address of the first font glyph; glyphs for hex digits 0-F follow,
/// five bytes each.
pub const FONT_START: usize = 0x50;

/// A structural anomaly that halts the machine: once one is recorded the
/// machine refuses to step further.
#[derive(Clone, Copy, Debug, PartialEq, Eq, Structural)]
pub enum Fault {
    /// A call was made with the stack already at full depth.
    StackOverflow,
    /// A return was executed with an empty stack.
    StackUnderflow,
    /// A fetch, jump target or data access fell outside memory.
    MemoryOutOfBounds,
}

/// Why a program image could not be loaded.
#[derive(Clone, Copy, Debug, PartialEq, Eq, Structural)]
pub enum LoadError {
    /// The image would extend past the end of memory; nothing was copied.
    RomTooLarge,
}

/// The outcome of one interpreter cycle, surfaced to the surrounding loop.
#[derive(Clone, Copy, Debug, PartialEq, Eq, Structural)]
pub enum CycleStatus {
    /// One instruction was fetched, decoded and executed.
    Executed,
    /// The fetched word matched no opcode; it was skipped as a no-op.
    UnknownOpcode,
    /// The machine is suspended on the wait-for-key instruction.
    AwaitingKey,
    /// The machine is halted; the fault says why. No state changed.
    Faulted(Fault),
}

/// The mathematical model of the machine state.
#[verifier::ext_equal]
pub ghost struct MachineView {
    pub memory: Seq<u8>,
    pub registers: Seq<u8>,
    pub index_register: u16,
    pub program_counter: u16,
    pub stack: Seq<u16>,
    pub delay_timer: u8,
    pub sound_timer: u8,
    pub framebuffer: Seq<bool>,
    pub keypad: Seq<bool>,
    pub awaiting_key: Option<u8>,
    pub fault: Option<Fault>,
}

/// Well-formedness of a machine state: every fixed-size component has its
/// size, the stack respects its depth cap, and a pending wait-for-key
/// targets a real register.
pub open spec fn wf(v: MachineView) -> bool {
    &&& v.memory.len() == 4096
    &&& v.registers.len() == 16
    &&& v.stack.len() <= 16
    &&& v.framebuffer.len() == 2048
    &&& v.keypad.len() == 16
    &&& match v.awaiting_key {
        Some(x) => x < 16,
        None => true,
    }
}

/// The complete CHIP-8 machine state.
///
/// The stack is held as a growable vector whose length is the stack
/// pointer: it is 0 when the stack is empty and never exceeds
/// [`STACK_DEPTH`]. The framebuffer holds one `bool` per pixel in row-major
/// order, `true` for an on pixel.
pub struct Chip8 {
    pub memory: Vec<u8>,
    pub registers: Vec<u8>,
    pub index_register: u16,
    pub program_counter: u16,
    pub stack: Vec<u16>,
    pub delay_timer: u8,
    pub sound_timer: u8,
    pub framebuffer: Vec<bool>,
    pub keypad: Vec<bool>,
    pub awaiting_key: Option<u8>,
    pub fault: Option<Fault>,
}

impl View for Chip8 {
    type V = MachineView;

    open spec fn view(&self) -> MachineView {
        MachineView {
            memory: self.memory@,
            registers: self.registers@,
            index_register: self.index_register,
            program_counter: self.program_counter,
            stack: self.stack@,
            delay_timer: self.delay_timer,
            sound_timer: self.sound_timer,
            framebuffer: self.framebuffer@,
            keypad: self.keypad@,
            awaiting_key: self.awaiting_key,
            fault: self.fault,
        }
    }
}

/// The font table: glyphs for hex digits 0-F, five bytes per glyph.
pub open spec fn font_seq() -> Seq<u8> {
    seq![
        0xF0u8, 0x90, 0x90, 0x90, 0xF0,
        0x20, 0x60, 0x20, 0x20, 0x70,
        0xF0, 0x10, 0xF0, 0x80, 0xF0,
        0xF0, 0x10, 0xF0, 0x10, 0xF0,
        0x90, 0x90, 0xF0, 0x10, 0x10,
        0xF0, 0x80, 0xF0, 0x10, 0xF0,
        0xF0, 0x80, 0xF0, 0x90, 0xF0,
        0xF0, 0x10, 0x20, 0x40, 0x40,
        0xF0, 0x90, 0xF0, 0x90, 0xF0,
        0xF0, 0x90, 0xF0, 0x10, 0xF0,
        0xF0, 0x90, 0xF0, 0x90, 0x90,
        0xE0, 0x90, 0xE0, 0x90, 0xE0,
        0xF0, 0x80, 0x80, 0x80, 0xF0,
        0xE0, 0x90, 0x90, 0x90, 0xE0,
        0xF0, 0x80, 0xF0, 0x80, 0xF0,
        0xF0, 0x80, 0xF0, 0x80, 0x80,
    ]
}

/// Memory as it stands at power-on: all zero except the font table.
pub open spec fn initial_memory() -> Seq<u8> {
    Seq::new(4096, |i: int| if 0x50 <= i < 0x50 + 80 { font_seq()[i - 0x50] } else { 0u8 })
}

/// The machine state at power-on.
pub open spec fn initial_machine() -> MachineView {
    MachineView {
        memory: initial_memory(),
        registers: Seq::new(16, |i: int| 0u8),
        index_register: 0,
        program_counter: 0x200,
        stack: Seq::empty(),
        delay_timer: 0,
        sound_timer: 0,
        framebuffer: Seq::new(2048, |i: int| false),
        keypad: Seq::new(16, |i: int| false),
        awaiting_key: None,
        fault: None,
    }
}

/// `mem` with `data` written over it starting at `at`.
pub open spec fn overwrite(mem: Seq<u8>, data: Seq<u8>, at: int) -> Seq<u8> {
    Seq::new(mem.len(), |i: int| if at <= i < at + data.len() { data[i - at] } else { mem[i] })
}

/// One 60Hz decrement of a timer: down by one, stopping at zero.
pub open spec fn spec_tick(t: u8) -> u8 {
    if t > 0 {
        (t - 1) as u8
    } else {
        0
    }
}

pub(crate) fn filled<T: Copy>(val: T, n: usize) -> (v: Vec<T>)
    ensures
        v@.len() == n,
        forall|i: int| 0 <= i < n ==> v@[i] == val,
{
    let mut v: Vec<T> = Vec::new();
    let mut k: usize = 0;
    while k < n
        invariant
            k <= n,
            v@.len() == k,
            forall|i: int| 0 <= i < k ==> v@[i] == val,
        decreases n - k,
    {
        v.push(val);
        k = k + 1;
    }
    v
}

fn font_vec() -> (v: Vec<u8>)
    ensures
        v@ == font_seq(),
{
    let mut v: Vec<u8> = Vec::new();
    v.push(0xF0); v.push(0x90); v.push(0x90); v.push(0x90); v.push(0xF0);
    v.push(0x20); v.push(0x60); v.push(0x20); v.push(0x20); v.push(0x70);
    v.push(0xF0); v.push(0x10); v.push(0xF0); v.push(0x80); v.push(0xF0);
    v.push(0xF0); v.push(0x10); v.push(0xF0); v.push(0x10); v.push(0xF0);
    v.push(0x90); v.push(0x90); v.push(0xF0); v.push(0x10); v.push(0x10);
    v.push(0xF0); v.push(0x80); v.push(0xF0); v.push(0x10); v.push(0xF0);
    v.push(0xF0); v.push(0x80); v.push(0xF0); v.push(0x90); v.push(0xF0);
    v.push(0xF0); v.push(0x10); v.push(0x20); v.push(0x40); v.push(0x40);
    v.push(0xF0); v.push(0x90); v.push(0xF0); v.push(0x90); v.push(0xF0);
    v.push(0xF0); v.push(0x90); v.push(0xF0); v.push(0x10); v.push(0xF0);
    v.push(0xF0); v.push(0x90); v.push(0xF0); v.push(0x90); v.push(0x90);
    v.push(0xE0); v.push(0x90); v.push(0xE0); v.push(0x90); v.push(0xE0);
    v.push(0xF0); v.push(0x80); v.push(0x80); v.push(0x80); v.push(0xF0);
    v.push(0xE0); v.push(0x90); v.push(0x90); v.push(0x90); v.push(0xE0);
    v.push(0xF0); v.push(0x80); v.push(0xF0); v.push(0x80); v.push(0xF0);
    v.push(0xF0); v.push(0x80); v.push(0xF0); v.push(0x80); v.push(0x80);
    proof {
        assert(v@ =~= font_seq());
    }
    v
}

impl Chip8 {
    /// Construct the machine at power-on: registers, timers and stack
    /// zeroed, memory zero except the font table, framebuffer all off,
    /// program counter at [`PROGRAM_START`].
    pub fn new() -> (c: Chip8)
        ensures
            c@ == initial_machine(),
            wf(c@),
    {
        let mut memory = filled(0u8, MEM_SIZE);
        let font = font_vec();
        let mut j: usize = 0;
        while j < 80
            invariant
                j <= 80,
                memory@.len() == 4096,
                font@ == font_seq(),
                forall|k: int| 0x50 <= k < 0x50 + j ==> memory@[k] == font_seq()[k - 0x50],
                forall|k: int| 0 <= k < 4096 && !(0x50 <= k < 0x50 + j) ==> memory@[k] == 0u8,
            decreases 80 - j,
        {
            memory.set(0x50 + j, font[j]);
            j = j + 1;
        }
        proof {
            assert(memory@ =~= initial_memory());
        }
        let c = Chip8 {
            memory,
            registers: filled(0u8, NUM_REGS),
            index_register: 0,
            program_counter: PROGRAM_START,
            stack: Vec::new(),
            delay_timer: 0,
            sound_timer: 0,
            framebuffer: filled(false, SCREEN_SIZE),
            keypad: filled(false, NUM_KEYS),
            awaiting_key: None,
            fault: None,
        };
        proof {
            assert(c@.registers =~= initial_machine().registers);
            assert(c@.framebuffer =~= initial_machine().framebuffer);
            assert(c@.keypad =~= initial_machine().keypad);
            assert(c@.stack =~= initial_machine().stack);
            assert(c@ =~= initial_machine());
        }
        c
    }

    /// Copy a program image into memory at `origin`. Succeeds exactly when
    /// the image fits below the end of memory; on failure nothing is
    /// copied.
    pub fn load(&mut self, bytes: &Vec<u8>, origin: u16) -> (r: Result<(), LoadError>)
        requires
            wf(old(self)@),
        ensures
            wf(final(self)@),
            r is Ok <==> origin + bytes@.len() <= 4096,
            r is Ok ==> final(self)@ == (MachineView {
                memory: overwrite(old(self)@.memory, bytes@, origin as int),
                ..old(self)@
            }),
            r is Err ==> final(self)@ == old(self)@ && r == Err::<(), LoadError>(
                LoadError::RomTooLarge,
            ),
    {
        if bytes.len() > MEM_SIZE || (origin as usize) > MEM_SIZE - bytes.len() {
            return Err(LoadError::RomTooLarge);
        }
        let mut j: usize = 0;
        while j < bytes.len()
            invariant
                wf(old(self)@),
                j <= bytes@.len(),
                origin + bytes@.len() <= 4096,
                self.memory@.len() == 4096,
                forall|k: int|
                    origin <= k < origin + j ==> self.memory@[k] == bytes@[k - origin],
                forall|k: int|
                    0 <= k < 4096 && !(origin <= k < origin + j) ==> self.memory@[k] == old(
                        self,
                    )@.memory[k],
                self.registers == old(self).registers,
                self.index_register == old(self).index_register,
                self.program_counter == old(self).program_counter,
                self.stack == old(self).stack,
                self.delay_timer == old(self).delay_timer,
                self.sound_timer == old(self).sound_timer,
                self.framebuffer == old(self).framebuffer,
                self.keypad == old(self).keypad,
                self.awaiting_key == old(self).awaiting_key,
                self.fault == old(self).fault,
            decreases bytes@.len() - j,
        {
            self.memory.set(origin as usize + j, bytes[j]);
            j = j + 1;
        }
        proof {
            assert(self@.memory =~= overwrite(old(self)@.memory, bytes@, origin as int));
            assert(self@ =~= (MachineView {
                memory: overwrite(old(self)@.memory, bytes@, origin as int),
                ..old(self)@
            }));
        }
        Ok(())
    }

    /// One 60Hz timer step: each timer goes down by one, stopping at zero.
    /// Nothing else changes.
    pub fn tick_timers(&mut self)
        ensures
            final(self)@ == (MachineView {
                delay_timer: spec_tick(old(self)@.delay_timer),
                sound_timer: spec_tick(old(self)@.sound_timer),
                ..old(self)@
            }),
    {
        if self.delay_timer > 0 {
            self.delay_timer = self.delay_timer - 1;
        }
        if self.sound_timer > 0 {
            self.sound_timer = self.sound_timer - 1;
        }
        proof {
            assert(self@ =~= (MachineView {
                delay_timer: spec_tick(old(self)@.delay_timer),
                sound_timer: spec_tick(old(self)@.sound_timer),
                ..old(self)@
            }));
        }
    }

    /// Record one key's press state, as the input collaborator reports it.
    pub fn set_key(&mut self, key: u8, pressed: bool)
        requires
            wf(old(self)@),
            key < 16,
        ensures
            wf(final(self)@),
            final(self)@ == (MachineView {
                keypad: old(self)@.keypad.update(key as int, pressed),
                ..old(self)@
            }),
    {
        self.keypad.set(key as usize, pressed);
        proof {
            assert(self@ =~= (MachineView {
                keypad: old(self)@.keypad.update(key as int, pressed),
                ..old(self)@
            }));
        }
    }

    /// The stack pointer: how many return addresses are on the stack,
    /// 0 when it is empty.
    pub fn stack_pointer(&self) -> (r: usize)
        ensures
            r == self@.stack.len(),
    {
        self.stack.len()
    }

    /// Whether the tone should be audible now: the sound timer is nonzero.
    pub fn sound_active(&self) -> (r: bool)
        ensures
            r == (self@.sound_timer > 0),
    {
        self.sound_timer > 0
    }
}

} // verus!
