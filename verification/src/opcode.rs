//! Splitting a 16-bit instruction word into its addressing fields.

use vstd::prelude::*;
use crate::instruction::{decode, Instruction};

verus! {

/// Bits 12-15 of `word`, left in place: the instruction family.
pub open spec fn highest_nibble(word: u16) -> u16 {
    (word - word % 0x1000) as u16
}

/// Bits 0-3 of `word`.
pub open spec fn lowest_nibble(word: u16) -> u16 {
    word % 0x10
}

/// Bits 0-7 of `word`.
pub open spec fn lowest_byte(word: u16) -> u8 {
    (word % 0x100) as u8
}

/// Bits 0-11 of `word`: the address field.
pub open spec fn address(word: u16) -> u16 {
    word % 0x1000
}

/// Bits 8-11 of `word`: the register selector X.
pub open spec fn selector_x(word: u16) -> usize {
    ((word / 0x100) % 0x10) as usize
}

/// Bits 4-7 of `word`: the register selector Y.
pub open spec fn selector_y(word: u16) -> usize {
    ((word / 0x10) % 0x10) as usize
}

/// The fields lie side by side in the word: none overlaps another but as
/// the wider ones are made of the narrower, and together they are the
/// whole word.
pub proof fn fields_make_up_the_word(word: u16)
    ensures
        word == highest_nibble(word) + address(word),
        address(word) == 0x100 * selector_x(word) + lowest_byte(word),
        lowest_byte(word) == 0x10 * selector_y(word) + lowest_nibble(word),
        highest_nibble(word) % 0x1000 == 0,
        address(word) <= 0xFFF,
        selector_x(word) <= 0xF,
        selector_y(word) <= 0xF,
        lowest_nibble(word) <= 0xF,
{
}

/// One instruction word, as fetched from memory.
#[derive(Debug)]
pub struct Opcode {
    pub value: u16,
}

impl Opcode {
    /// The instruction family: bits 12-15, left in place.
    pub fn fetch_highest_nibble(&self) -> (nibble: u16)
        ensures
            nibble == highest_nibble(self.value),
    {
        let word = self.value;
        assert(word & 0xF000 == word - word % 0x1000) by (bit_vector);
        word & 0xF000
    }

    /// The selector within the family `8`, or the height of a sprite: bits 0-3.
    pub fn fetch_lowest_nibble(&self) -> (nibble: u16)
        ensures
            nibble == lowest_nibble(self.value),
    {
        let word = self.value;
        assert(word & 0x000F == word % 0x10) by (bit_vector);
        word & 0x000F
    }

    /// An immediate, or the selector within the families `0`, `E` and `F`: bits 0-7.
    pub fn fetch_lowest_byte(&self) -> (byte: u8)
        ensures
            byte == lowest_byte(self.value),
    {
        let word = self.value;
        assert(word & 0x00FF == word % 0x100) by (bit_vector);
        (word & 0x00FF) as u8
    }

    /// The address field: bits 0-11.
    pub fn fetch_nnn(&self) -> (nnn: u16)
        ensures
            nnn == address(self.value),
    {
        let word = self.value;
        assert(word & 0x0FFF == word % 0x1000) by (bit_vector);
        word & 0x0FFF
    }

    /// The register selector X: bits 8-11.
    pub fn fetch_x(&self) -> (x: usize)
        ensures
            x == selector_x(self.value),
    {
        let word = self.value;
        assert((word & 0x0F00) >> 8 == (word / 0x100) % 0x10) by (bit_vector);
        ((word & 0x0F00) >> 8) as usize
    }

    /// The register selector Y: bits 4-7.
    pub fn fetch_y(&self) -> (y: usize)
        ensures
            y == selector_y(self.value),
    {
        let word = self.value;
        assert((word & 0x00F0) >> 4 == (word / 0x10) % 0x10) by (bit_vector);
        ((word & 0x00F0) >> 4) as usize
    }

    /// Decodes the word: `None` where it encodes no defined instruction.
    pub fn decode(&self) -> (decoded: Option<Instruction>)
        ensures
            decoded == decode(self.value),
            decoded matches Some(instruction) ==> instruction.well_formed(),
    {
        let x = self.fetch_x();
        let y = self.fetch_y();
        let value = self.fetch_lowest_byte();
        let nibble = self.fetch_lowest_nibble();
        let address = self.fetch_nnn();
        match self.fetch_highest_nibble() {
            0x0000 => match value {
                0xE0 => Some(Instruction::ClearScreen),
                0xEE => Some(Instruction::Return),
                _ => None,
            },
            0x1000 => Some(Instruction::Jump { address }),
            0x2000 => Some(Instruction::Call { address }),
            0x3000 => Some(Instruction::SkipIfEqual { x, value }),
            0x4000 => Some(Instruction::SkipIfNotEqual { x, value }),
            0x5000 => Some(Instruction::SkipIfRegistersEqual { x, y }),
            0x6000 => Some(Instruction::LoadImmediate { x, value }),
            0x7000 => Some(Instruction::AddImmediate { x, value }),
            0x8000 => match nibble {
                0x0 => Some(Instruction::LoadRegister { x, y }),
                0x1 => Some(Instruction::Or { x, y }),
                0x2 => Some(Instruction::And { x, y }),
                0x3 => Some(Instruction::Xor { x, y }),
                0x4 => Some(Instruction::AddRegister { x, y }),
                0x5 => Some(Instruction::SubtractRegister { x, y }),
                0x6 => Some(Instruction::ShiftRight { x }),
                0x7 => Some(Instruction::SubtractFromRegister { x, y }),
                0xE => Some(Instruction::ShiftLeft { x }),
                _ => None,
            },
            0x9000 => Some(Instruction::SkipIfRegistersNotEqual { x, y }),
            0xA000 => Some(Instruction::LoadIndex { address }),
            0xB000 => Some(Instruction::JumpOffset { address }),
            0xC000 => Some(Instruction::Random { x, mask: value }),
            0xD000 => Some(Instruction::Draw { x, y, rows: nibble as u8 }),
            0xE000 => match value {
                0x9E => Some(Instruction::SkipIfKeyDown { x }),
                0xA1 => Some(Instruction::SkipIfKeyUp { x }),
                _ => None,
            },
            _ => match value {
                0x07 => Some(Instruction::LoadDelayTimer { x }),
                0x0A => Some(Instruction::WaitForKey { x }),
                0x15 => Some(Instruction::StoreDelayTimer { x }),
                0x18 => Some(Instruction::StoreSoundTimer { x }),
                0x1E => Some(Instruction::AddToIndex { x }),
                0x29 => Some(Instruction::LoadGlyph { x }),
                0x33 => Some(Instruction::StoreDecimal { x }),
                0x55 => Some(Instruction::StoreRegisters { x }),
                0x65 => Some(Instruction::LoadRegisters { x }),
                _ => None,
            },
        }
    }
}

} // verus!
