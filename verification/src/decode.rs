//! Decoding of 16-bit CHIP-8 instruction words.
//!
//! An instruction word is split into the conventional sub-fields
//! (`x`, `y`, `n`, `nn`, `nnn`) and mapped to a tagged [`Instruction`]
//! value. A word that matches no opcode of the canonical set decodes to
//! `None`; the interpreter treats it as a non-fatal no-op.

use vstd::prelude::*;

verus! {

/// One decoded CHIP-8 instruction.
///
/// Field conventions: `x` and `y` are register indices (low nibbles of the
/// word), `n` a 4-bit immediate, `nn` an 8-bit immediate, `nnn` a 12-bit
/// address.
#[derive(Clone, Copy, Debug, PartialEq, Eq, Structural)]
pub enum Instruction {
    /// `00E0`: turn every framebuffer pixel off.
    ClearScreen,
    /// `00EE`: pop the stack into the program counter.
    Return,
    /// `1nnn`: jump to `nnn`.
    Jump { nnn: u16 },
    /// `2nnn`: push the program counter, then jump to `nnn`.
    Call { nnn: u16 },
    /// `3xnn`: skip the next instruction if `Vx == nn`.
    SkipEqImm { x: u8, nn: u8 },
    /// `4xnn`: skip the next instruction if `Vx != nn`.
    SkipNeImm { x: u8, nn: u8 },
    /// `5xy0`: skip the next instruction if `Vx == Vy`.
    SkipEqReg { x: u8, y: u8 },
    /// `9xy0`: skip the next instruction if `Vx != Vy`.
    SkipNeReg { x: u8, y: u8 },
    /// `6xnn`: `Vx = nn`.
    SetImm { x: u8, nn: u8 },
    /// `7xnn`: `Vx = Vx + nn`, wrapping at 8 bits, flags untouched.
    AddImm { x: u8, nn: u8 },
    /// `8xy0`: `Vx = Vy`.
    Assign { x: u8, y: u8 },
    /// `8xy1`: `Vx |= Vy`.
    Or { x: u8, y: u8 },
    /// `8xy2`: `Vx &= Vy`.
    And { x: u8, y: u8 },
    /// `8xy3`: `Vx ^= Vy`.
    Xor { x: u8, y: u8 },
    /// `8xy4`: `Vx += Vy` wrapping, VF = 1 on carry else 0.
    AddCarry { x: u8, y: u8 },
    /// `8xy5`: `Vx -= Vy` wrapping, VF = 1 when no borrow else 0.
    SubBorrow { x: u8, y: u8 },
    /// `8xy7`: `Vx = Vy - Vx` wrapping, VF = 1 when no borrow else 0.
    SubBorrowRev { x: u8, y: u8 },
    /// `8xy6`: shift `Vx` right by one in place, VF = the dropped bit.
    ShiftRight { x: u8, y: u8 },
    /// `8xyE`: shift `Vx` left by one in place, VF = the dropped bit.
    ShiftLeft { x: u8, y: u8 },
    /// `Annn`: `I = nnn`.
    SetIndex { nnn: u16 },
    /// `Bnnn`: jump to `nnn + V0`.
    JumpOffset { nnn: u16 },
    /// `Cxnn`: `Vx = random byte & nn`.
    Random { x: u8, nn: u8 },
    /// `Dxyn`: XOR an `n`-row sprite from memory at `I` onto the screen at
    /// `(Vx mod 64, Vy mod 32)`, VF = 1 on any on-to-off pixel collision.
    Draw { x: u8, y: u8, n: u8 },
    /// `Ex9E`: skip the next instruction if key `Vx & 0xF` is pressed.
    SkipKeyPressed { x: u8 },
    /// `ExA1`: skip the next instruction if key `Vx & 0xF` is not pressed.
    SkipKeyNotPressed { x: u8 },
    /// `Fx07`: `Vx = delay_timer`.
    ReadDelay { x: u8 },
    /// `Fx0A`: wait until a key is pressed, then store its index in `Vx`.
    WaitKey { x: u8 },
    /// `Fx15`: `delay_timer = Vx`.
    SetDelay { x: u8 },
    /// `Fx18`: `sound_timer = Vx`.
    SetSound { x: u8 },
    /// `Fx1E`: `I = (I + Vx) & 0xFFF`, flags untouched.
    AddIndex { x: u8 },
    /// `Fx29`: point `I` at the font glyph for the low nibble of `Vx`.
    FontIndex { x: u8 },
    /// `Fx33`: store the decimal digits of `Vx` at `I`, `I+1`, `I+2`.
    StoreBcd { x: u8 },
    /// `Fx55`: store `V0..=Vx` into memory at `I..`.
    StoreRegs { x: u8 },
    /// `Fx65`: load `V0..=Vx` from memory at `I..`.
    LoadRegs { x: u8 },
}

/// Field bounds that every decoded instruction satisfies: register indices
/// below 16, immediates within 4, 8 or 12 bits.
pub open spec fn instr_wf(i: Instruction) -> bool {
    match i {
        Instruction::ClearScreen => true,
        Instruction::Return => true,
        Instruction::Jump { nnn } => nnn < 0x1000,
        Instruction::Call { nnn } => nnn < 0x1000,
        Instruction::SkipEqImm { x, nn } => x < 16,
        Instruction::SkipNeImm { x, nn } => x < 16,
        Instruction::SkipEqReg { x, y } => x < 16 && y < 16,
        Instruction::SkipNeReg { x, y } => x < 16 && y < 16,
        Instruction::SetImm { x, nn } => x < 16,
        Instruction::AddImm { x, nn } => x < 16,
        Instruction::Assign { x, y } => x < 16 && y < 16,
        Instruction::Or { x, y } => x < 16 && y < 16,
        Instruction::And { x, y } => x < 16 && y < 16,
        Instruction::Xor { x, y } => x < 16 && y < 16,
        Instruction::AddCarry { x, y } => x < 16 && y < 16,
        Instruction::SubBorrow { x, y } => x < 16 && y < 16,
        Instruction::SubBorrowRev { x, y } => x < 16 && y < 16,
        Instruction::ShiftRight { x, y } => x < 16 && y < 16,
        Instruction::ShiftLeft { x, y } => x < 16 && y < 16,
        Instruction::SetIndex { nnn } => nnn < 0x1000,
        Instruction::JumpOffset { nnn } => nnn < 0x1000,
        Instruction::Random { x, nn } => x < 16,
        Instruction::Draw { x, y, n } => x < 16 && y < 16 && n < 16,
        Instruction::SkipKeyPressed { x } => x < 16,
        Instruction::SkipKeyNotPressed { x } => x < 16,
        Instruction::ReadDelay { x } => x < 16,
        Instruction::WaitKey { x } => x < 16,
        Instruction::SetDelay { x } => x < 16,
        Instruction::SetSound { x } => x < 16,
        Instruction::AddIndex { x } => x < 16,
        Instruction::FontIndex { x } => x < 16,
        Instruction::StoreBcd { x } => x < 16,
        Instruction::StoreRegs { x } => x < 16,
        Instruction::LoadRegs { x } => x < 16,
    }
}

/// What a 16-bit word decodes to, by the canonical opcode table.
pub open spec fn spec_decode(word: u16) -> Option<Instruction> {
    let op = word >> 12;
    let x = ((word >> 8) & 0xF) as u8;
    let y = ((word >> 4) & 0xF) as u8;
    let n = (word & 0xF) as u8;
    let nn = (word & 0xFF) as u8;
    let nnn = word & 0xFFF;
    if word == 0x00E0 {
        Some(Instruction::ClearScreen)
    } else if word == 0x00EE {
        Some(Instruction::Return)
    } else if op == 0x1 {
        Some(Instruction::Jump { nnn })
    } else if op == 0x2 {
        Some(Instruction::Call { nnn })
    } else if op == 0x3 {
        Some(Instruction::SkipEqImm { x, nn })
    } else if op == 0x4 {
        Some(Instruction::SkipNeImm { x, nn })
    } else if op == 0x5 {
        if n == 0 {
            Some(Instruction::SkipEqReg { x, y })
        } else {
            None
        }
    } else if op == 0x6 {
        Some(Instruction::SetImm { x, nn })
    } else if op == 0x7 {
        Some(Instruction::AddImm { x, nn })
    } else if op == 0x8 {
        if n == 0x0 {
            Some(Instruction::Assign { x, y })
        } else if n == 0x1 {
            Some(Instruction::Or { x, y })
        } else if n == 0x2 {
            Some(Instruction::And { x, y })
        } else if n == 0x3 {
            Some(Instruction::Xor { x, y })
        } else if n == 0x4 {
            Some(Instruction::AddCarry { x, y })
        } else if n == 0x5 {
            Some(Instruction::SubBorrow { x, y })
        } else if n == 0x6 {
            Some(Instruction::ShiftRight { x, y })
        } else if n == 0x7 {
            Some(Instruction::SubBorrowRev { x, y })
        } else if n == 0xE {
            Some(Instruction::ShiftLeft { x, y })
        } else {
            None
        }
    } else if op == 0x9 {
        if n == 0 {
            Some(Instruction::SkipNeReg { x, y })
        } else {
            None
        }
    } else if op == 0xA {
        Some(Instruction::SetIndex { nnn })
    } else if op == 0xB {
        Some(Instruction::JumpOffset { nnn })
    } else if op == 0xC {
        Some(Instruction::Random { x, nn })
    } else if op == 0xD {
        Some(Instruction::Draw { x, y, n })
    } else if op == 0xE {
        if nn == 0x9E {
            Some(Instruction::SkipKeyPressed { x })
        } else if nn == 0xA1 {
            Some(Instruction::SkipKeyNotPressed { x })
        } else {
            None
        }
    } else if op == 0xF {
        if nn == 0x07 {
            Some(Instruction::ReadDelay { x })
        } else if nn == 0x0A {
            Some(Instruction::WaitKey { x })
        } else if nn == 0x15 {
            Some(Instruction::SetDelay { x })
        } else if nn == 0x18 {
            Some(Instruction::SetSound { x })
        } else if nn == 0x1E {
            Some(Instruction::AddIndex { x })
        } else if nn == 0x29 {
            Some(Instruction::FontIndex { x })
        } else if nn == 0x33 {
            Some(Instruction::StoreBcd { x })
        } else if nn == 0x55 {
            Some(Instruction::StoreRegs { x })
        } else if nn == 0x65 {
            Some(Instruction::LoadRegs { x })
        } else {
            None
        }
    } else {
        None
    }
}

/// Every decoded instruction has its fields within bounds.
pub proof fn lemma_decode_wf(word: u16)
    ensures
        spec_decode(word) matches Some(i) ==> instr_wf(i),
{
    assert(((word >> 8) & 0xF) < 16) by (bit_vector);
    assert(((word >> 4) & 0xF) < 16) by (bit_vector);
    assert((word & 0xF) < 16) by (bit_vector);
    assert((word & 0xFFF) < 0x1000) by (bit_vector);
}

/// Decode one instruction word.
pub fn decode(word: u16) -> (r: Option<Instruction>)
    ensures
        r == spec_decode(word),
        r matches Some(i) ==> instr_wf(i),
{
    proof {
        lemma_decode_wf(word);
    }
    let op = word >> 12;
    let x = ((word >> 8) & 0xF) as u8;
    let y = ((word >> 4) & 0xF) as u8;
    let n = (word & 0xF) as u8;
    let nn = (word & 0xFF) as u8;
    let nnn = word & 0xFFF;
    if word == 0x00E0 {
        Some(Instruction::ClearScreen)
    } else if word == 0x00EE {
        Some(Instruction::Return)
    } else if op == 0x1 {
        Some(Instruction::Jump { nnn })
    } else if op == 0x2 {
        Some(Instruction::Call { nnn })
    } else if op == 0x3 {
        Some(Instruction::SkipEqImm { x, nn })
    } else if op == 0x4 {
        Some(Instruction::SkipNeImm { x, nn })
    } else if op == 0x5 {
        if n == 0 {
            Some(Instruction::SkipEqReg { x, y })
        } else {
            None
        }
    } else if op == 0x6 {
        Some(Instruction::SetImm { x, nn })
    } else if op == 0x7 {
        Some(Instruction::AddImm { x, nn })
    } else if op == 0x8 {
        if n == 0x0 {
            Some(Instruction::Assign { x, y })
        } else if n == 0x1 {
            Some(Instruction::Or { x, y })
        } else if n == 0x2 {
            Some(Instruction::And { x, y })
        } else if n == 0x3 {
            Some(Instruction::Xor { x, y })
        } else if n == 0x4 {
            Some(Instruction::AddCarry { x, y })
        } else if n == 0x5 {
            Some(Instruction::SubBorrow { x, y })
        } else if n == 0x6 {
            Some(Instruction::ShiftRight { x, y })
        } else if n == 0x7 {
            Some(Instruction::SubBorrowRev { x, y })
        } else if n == 0xE {
            Some(Instruction::ShiftLeft { x, y })
        } else {
            None
        }
    } else if op == 0x9 {
        if n == 0 {
            Some(Instruction::SkipNeReg { x, y })
        } else {
            None
        }
    } else if op == 0xA {
        Some(Instruction::SetIndex { nnn })
    } else if op == 0xB {
        Some(Instruction::JumpOffset { nnn })
    } else if op == 0xC {
        Some(Instruction::Random { x, nn })
    } else if op == 0xD {
        Some(Instruction::Draw { x, y, n })
    } else if op == 0xE {
        if nn == 0x9E {
            Some(Instruction::SkipKeyPressed { x })
        } else if nn == 0xA1 {
            Some(Instruction::SkipKeyNotPressed { x })
        } else {
            None
        }
    } else if op == 0xF {
        if nn == 0x07 {
            Some(Instruction::ReadDelay { x })
        } else if nn == 0x0A {
            Some(Instruction::WaitKey { x })
        } else if nn == 0x15 {
            Some(Instruction::SetDelay { x })
        } else if nn == 0x18 {
            Some(Instruction::SetSound { x })
        } else if nn == 0x1E {
            Some(Instruction::AddIndex { x })
        } else if nn == 0x29 {
            Some(Instruction::FontIndex { x })
        } else if nn == 0x33 {
            Some(Instruction::StoreBcd { x })
        } else if nn == 0x55 {
            Some(Instruction::StoreRegs { x })
        } else if nn == 0x65 {
            Some(Instruction::LoadRegs { x })
        } else {
            None
        }
    } else {
        None
    }
}

} // verus!
