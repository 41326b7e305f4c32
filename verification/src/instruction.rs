//! The instruction set: one variant per defined instruction, and the rule
//! that maps a 16-bit word to its instruction.

use vstd::prelude::*;
use crate::opcode::{address, highest_nibble, lowest_byte, lowest_nibble, selector_x, selector_y};

verus! {

/// A decoded instruction. `x` and `y` select registers, `value` and `mask`
/// are 8-bit immediates, `address` is a 12-bit address.
#[derive(Debug, Clone, Copy, PartialEq, Eq)]
pub enum Instruction {
    /// `00E0`: clear the screen.
    ClearScreen,
    /// `00EE`: return from a subroutine.
    Return,
    /// `1nnn`: jump to `address`.
    Jump { address: u16 },
    /// `2nnn`: call the subroutine at `address`.
    Call { address: u16 },
    /// `3xnn`: skip the next instruction if Vx equals `value`.
    SkipIfEqual { x: usize, value: u8 },
    /// `4xnn`: skip the next instruction if Vx differs from `value`.
    SkipIfNotEqual { x: usize, value: u8 },
    /// `5xy_`: skip the next instruction if Vx equals Vy.
    SkipIfRegistersEqual { x: usize, y: usize },
    /// `6xnn`: Vx = `value`.
    LoadImmediate { x: usize, value: u8 },
    /// `7xnn`: Vx += `value`, without touching the flag.
    AddImmediate { x: usize, value: u8 },
    /// `8xy0`: Vx = Vy.
    LoadRegister { x: usize, y: usize },
    /// `8xy1`: Vx |= Vy.
    Or { x: usize, y: usize },
    /// `8xy2`: Vx &= Vy.
    And { x: usize, y: usize },
    /// `8xy3`: Vx ^= Vy.
    Xor { x: usize, y: usize },
    /// `8xy4`: Vx += Vy, VF = carry.
    AddRegister { x: usize, y: usize },
    /// `8xy5`: Vx -= Vy, VF = no borrow.
    SubtractRegister { x: usize, y: usize },
    /// `8xy6`: VF = lowest bit of Vx, Vx >>= 1.
    ShiftRight { x: usize },
    /// `8xy7`: Vx = Vy - Vx, VF = no borrow.
    SubtractFromRegister { x: usize, y: usize },
    /// `8xyE`: VF = highest bit of Vx, Vx <<= 1.
    ShiftLeft { x: usize },
    /// `9xy_`: skip the next instruction if Vx differs from Vy.
    SkipIfRegistersNotEqual { x: usize, y: usize },
    /// `Annn`: I = `address`.
    LoadIndex { address: u16 },
    /// `Bnnn`: jump to `address` with V0 added into its low byte.
    JumpOffset { address: u16 },
    /// `Cxnn`: Vx = random byte & `mask`.
    Random { x: usize, mask: u8 },
    /// `Dxyn`: draw the sprite of `rows` rows at I to the position (Vx, Vy).
    Draw { x: usize, y: usize, rows: u8 },
    /// `Ex9E`: skip the next instruction if the key Vx is down.
    SkipIfKeyDown { x: usize },
    /// `ExA1`: skip the next instruction if the key Vx is up.
    SkipIfKeyUp { x: usize },
    /// `Fx07`: Vx = delay timer.
    LoadDelayTimer { x: usize },
    /// `Fx0A`: wait until a key is down, then Vx = that key.
    WaitForKey { x: usize },
    /// `Fx15`: delay timer = Vx.
    StoreDelayTimer { x: usize },
    /// `Fx18`: sound timer = Vx.
    StoreSoundTimer { x: usize },
    /// `Fx1E`: I += Vx.
    AddToIndex { x: usize },
    /// `Fx29`: I = address of the font glyph for the digit Vx.
    LoadGlyph { x: usize },
    /// `Fx33`: store the three decimal digits of Vx at I, I+1, I+2.
    StoreDecimal { x: usize },
    /// `Fx55`: store V0..=Vx at I onward.
    StoreRegisters { x: usize },
    /// `Fx65`: load V0..=Vx from I onward.
    LoadRegisters { x: usize },
}

impl Instruction {
    /// Every field is in the range its width in the instruction word allows.
    pub open spec fn well_formed(self) -> bool {
        match self {
            Instruction::ClearScreen | Instruction::Return => true,
            Instruction::Jump { address }
            | Instruction::Call { address }
            | Instruction::LoadIndex { address }
            | Instruction::JumpOffset { address } => address <= 0xFFF,
            Instruction::SkipIfEqual { x, .. }
            | Instruction::SkipIfNotEqual { x, .. }
            | Instruction::LoadImmediate { x, .. }
            | Instruction::AddImmediate { x, .. }
            | Instruction::Random { x, .. }
            | Instruction::ShiftRight { x }
            | Instruction::ShiftLeft { x }
            | Instruction::SkipIfKeyDown { x }
            | Instruction::SkipIfKeyUp { x }
            | Instruction::LoadDelayTimer { x }
            | Instruction::WaitForKey { x }
            | Instruction::StoreDelayTimer { x }
            | Instruction::StoreSoundTimer { x }
            | Instruction::AddToIndex { x }
            | Instruction::LoadGlyph { x }
            | Instruction::StoreDecimal { x }
            | Instruction::StoreRegisters { x }
            | Instruction::LoadRegisters { x } => x < 16,
            Instruction::SkipIfRegistersEqual { x, y }
            | Instruction::LoadRegister { x, y }
            | Instruction::Or { x, y }
            | Instruction::And { x, y }
            | Instruction::Xor { x, y }
            | Instruction::AddRegister { x, y }
            | Instruction::SubtractRegister { x, y }
            | Instruction::SubtractFromRegister { x, y }
            | Instruction::SkipIfRegistersNotEqual { x, y } => x < 16 && y < 16,
            Instruction::Draw { x, y, rows } => x < 16 && y < 16 && rows < 16,
        }
    }
}

/// The instruction that `word` encodes, if it encodes one. The family is
/// the highest nibble; the families 0, E and F select by the lowest byte,
/// the family 8 by the lowest nibble, and the others need no selector.
pub open spec fn decode(word: u16) -> Option<Instruction> {
    let x = selector_x(word);
    let y = selector_y(word);
    let value = lowest_byte(word);
    let nibble = lowest_nibble(word);
    let address = address(word);
    let family = highest_nibble(word);
    if family == 0x0000 {
        if value == 0xE0 {
            Some(Instruction::ClearScreen)
        } else if value == 0xEE {
            Some(Instruction::Return)
        } else {
            None
        }
    } else if family == 0x1000 {
        Some(Instruction::Jump { address })
    } else if family == 0x2000 {
        Some(Instruction::Call { address })
    } else if family == 0x3000 {
        Some(Instruction::SkipIfEqual { x, value })
    } else if family == 0x4000 {
        Some(Instruction::SkipIfNotEqual { x, value })
    } else if family == 0x5000 {
        Some(Instruction::SkipIfRegistersEqual { x, y })
    } else if family == 0x6000 {
        Some(Instruction::LoadImmediate { x, value })
    } else if family == 0x7000 {
        Some(Instruction::AddImmediate { x, value })
    } else if family == 0x8000 {
        if nibble == 0x0 {
            Some(Instruction::LoadRegister { x, y })
        } else if nibble == 0x1 {
            Some(Instruction::Or { x, y })
        } else if nibble == 0x2 {
            Some(Instruction::And { x, y })
        } else if nibble == 0x3 {
            Some(Instruction::Xor { x, y })
        } else if nibble == 0x4 {
            Some(Instruction::AddRegister { x, y })
        } else if nibble == 0x5 {
            Some(Instruction::SubtractRegister { x, y })
        } else if nibble == 0x6 {
            Some(Instruction::ShiftRight { x })
        } else if nibble == 0x7 {
            Some(Instruction::SubtractFromRegister { x, y })
        } else if nibble == 0xE {
            Some(Instruction::ShiftLeft { x })
        } else {
            None
        }
    } else if family == 0x9000 {
        Some(Instruction::SkipIfRegistersNotEqual { x, y })
    } else if family == 0xA000 {
        Some(Instruction::LoadIndex { address })
    } else if family == 0xB000 {
        Some(Instruction::JumpOffset { address })
    } else if family == 0xC000 {
        Some(Instruction::Random { x, mask: value })
    } else if family == 0xD000 {
        Some(Instruction::Draw { x, y, rows: nibble as u8 })
    } else if family == 0xE000 {
        if value == 0x9E {
            Some(Instruction::SkipIfKeyDown { x })
        } else if value == 0xA1 {
            Some(Instruction::SkipIfKeyUp { x })
        } else {
            None
        }
    } else {
        if value == 0x07 {
            Some(Instruction::LoadDelayTimer { x })
        } else if value == 0x0A {
            Some(Instruction::WaitForKey { x })
        } else if value == 0x15 {
            Some(Instruction::StoreDelayTimer { x })
        } else if value == 0x18 {
            Some(Instruction::StoreSoundTimer { x })
        } else if value == 0x1E {
            Some(Instruction::AddToIndex { x })
        } else if value == 0x29 {
            Some(Instruction::LoadGlyph { x })
        } else if value == 0x33 {
            Some(Instruction::StoreDecimal { x })
        } else if value == 0x55 {
            Some(Instruction::StoreRegisters { x })
        } else if value == 0x65 {
            Some(Instruction::LoadRegisters { x })
        } else {
            None
        }
    }
}

/// Whatever a word decodes to has its fields in range.
pub proof fn decoded_is_well_formed(word: u16)
    ensures
        decode(word) matches Some(instruction) ==> instruction.well_formed(),
{
}

} // verus!
