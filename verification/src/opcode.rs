//! The instruction set: one variant per opcode family, and the decoder from
//! 16-bit instruction words.

use vstd::prelude::*;

verus! {

/// A decoded instruction. Register operands are register numbers below 16,
/// addresses are below 4096.
#[derive(Clone, Copy, Debug, PartialEq, Eq, Structural)]
pub enum Instruction {
    /// Turn every pixel off.
    ClearScreen,
    /// Return from a subroutine.
    Return,
    /// Continue at the address.
    Jump(u16),
    /// Call the subroutine at the address.
    Call(u16),
    /// Skip the next instruction if the register equals the byte.
    SkipEqualByte(u8, u8),
    /// Skip the next instruction if the register differs from the byte.
    SkipNotEqualByte(u8, u8),
    /// Skip the next instruction if the two registers are equal.
    SkipEqual(u8, u8),
    /// Set the register to the byte.
    LoadByte(u8, u8),
    /// Add the byte to the register, wrapping, with no flag.
    AddByte(u8, u8),
    /// Copy the second register into the first.
    Move(u8, u8),
    /// Bitwise OR of the second register into the first.
    Or(u8, u8),
    /// Bitwise AND of the second register into the first.
    And(u8, u8),
    /// Bitwise XOR of the second register into the first.
    Xor(u8, u8),
    /// Add the second register to the first; the flag is the carry.
    Add(u8, u8),
    /// Subtract the second register from the first; the flag is "no borrow".
    Sub(u8, u8),
    /// Shift the register right by one; the flag is the bit shifted out.
    ShiftRight(u8),
    /// First register = second minus first; the flag is "no borrow".
    SubReverse(u8, u8),
    /// Shift the register left by one; the flag is the bit shifted out.
    ShiftLeft(u8),
    /// Skip the next instruction if the two registers differ.
    SkipNotEqual(u8, u8),
    /// Set the index register to the address.
    SetIndex(u16),
    /// Continue at the address plus register 0.
    JumpIndexed(u16),
    /// Set the register to a random byte ANDed with the mask.
    Random(u8, u8),
    /// Draw the sprite of the given height found at the index register, at
    /// the position held in the two registers.
    Draw(u8, u8, u8),
    /// Skip the next instruction if the key named by the register is held.
    SkipKeyPressed(u8),
    /// Skip the next instruction if the key named by the register is not held.
    SkipKeyNotPressed(u8),
    /// Set the register to the delay timer.
    LoadDelay(u8),
    /// Wait until a key is held, then store its code in the register.
    WaitKey(u8),
    /// Set the delay timer to the register.
    SetDelay(u8),
    /// Set the sound timer to the register.
    SetSound(u8),
    /// Add the register to the index register.
    AddIndex(u8),
    /// Point the index register at the glyph for the register's low nibble.
    FontAddress(u8),
    /// Store the register's three decimal digits at the index register.
    StoreDigits(u8),
    /// Store registers 0 up to and including the given one at the index register.
    StoreRegisters(u8),
    /// Load registers 0 up to and including the given one from the index register.
    LoadRegisters(u8),
    /// A word that names no instruction.
    Unknown(u16),
}

/// The four 4-bit fields of a word, most significant first.
pub open spec fn nibbles(word: u16) -> (u8, u8, u8, u8) {
    ((word / 4096) as u8, (word / 256 % 16) as u8, (word / 16 % 16) as u8, (word % 16) as u8)
}

/// The instruction that a word encodes.
pub open spec fn spec_decode(word: u16) -> Instruction {
    let (op, x, y, n) = nibbles(word);
    let nnn = word % 4096;
    let kk = (word % 256) as u8;
    if word == 0x00E0 {
        Instruction::ClearScreen
    } else if word == 0x00EE {
        Instruction::Return
    } else if op == 1 {
        Instruction::Jump(nnn)
    } else if op == 2 {
        Instruction::Call(nnn)
    } else if op == 3 {
        Instruction::SkipEqualByte(x, kk)
    } else if op == 4 {
        Instruction::SkipNotEqualByte(x, kk)
    } else if op == 5 && n == 0 {
        Instruction::SkipEqual(x, y)
    } else if op == 6 {
        Instruction::LoadByte(x, kk)
    } else if op == 7 {
        Instruction::AddByte(x, kk)
    } else if op == 8 && n == 0 {
        Instruction::Move(x, y)
    } else if op == 8 && n == 1 {
        Instruction::Or(x, y)
    } else if op == 8 && n == 2 {
        Instruction::And(x, y)
    } else if op == 8 && n == 3 {
        Instruction::Xor(x, y)
    } else if op == 8 && n == 4 {
        Instruction::Add(x, y)
    } else if op == 8 && n == 5 {
        Instruction::Sub(x, y)
    } else if op == 8 && n == 6 {
        Instruction::ShiftRight(x)
    } else if op == 8 && n == 7 {
        Instruction::SubReverse(x, y)
    } else if op == 8 && n == 0xE {
        Instruction::ShiftLeft(x)
    } else if op == 9 && n == 0 {
        Instruction::SkipNotEqual(x, y)
    } else if op == 0xA {
        Instruction::SetIndex(nnn)
    } else if op == 0xB {
        Instruction::JumpIndexed(nnn)
    } else if op == 0xC {
        Instruction::Random(x, kk)
    } else if op == 0xD {
        Instruction::Draw(x, y, n)
    } else if op == 0xE && kk == 0x9E {
        Instruction::SkipKeyPressed(x)
    } else if op == 0xE && kk == 0xA1 {
        Instruction::SkipKeyNotPressed(x)
    } else if op == 0xF && kk == 0x07 {
        Instruction::LoadDelay(x)
    } else if op == 0xF && kk == 0x0A {
        Instruction::WaitKey(x)
    } else if op == 0xF && kk == 0x15 {
        Instruction::SetDelay(x)
    } else if op == 0xF && kk == 0x18 {
        Instruction::SetSound(x)
    } else if op == 0xF && kk == 0x1E {
        Instruction::AddIndex(x)
    } else if op == 0xF && kk == 0x29 {
        Instruction::FontAddress(x)
    } else if op == 0xF && kk == 0x33 {
        Instruction::StoreDigits(x)
    } else if op == 0xF && kk == 0x55 {
        Instruction::StoreRegisters(x)
    } else if op == 0xF && kk == 0x65 {
        Instruction::LoadRegisters(x)
    } else {
        Instruction::Unknown(word)
    }
}

/// Whether every operand of an instruction is in range: register numbers
/// and sprite heights below 16, addresses below 4096.
pub open spec fn operands_in_range(ins: Instruction) -> bool {
    match ins {
        Instruction::ClearScreen | Instruction::Return | Instruction::Unknown(_) => true,
        Instruction::Jump(a)
        | Instruction::Call(a)
        | Instruction::SetIndex(a)
        | Instruction::JumpIndexed(a) => a < 4096,
        Instruction::SkipEqualByte(x, _)
        | Instruction::SkipNotEqualByte(x, _)
        | Instruction::LoadByte(x, _)
        | Instruction::AddByte(x, _)
        | Instruction::Random(x, _) => x < 16,
        Instruction::SkipEqual(x, y)
        | Instruction::Move(x, y)
        | Instruction::Or(x, y)
        | Instruction::And(x, y)
        | Instruction::Xor(x, y)
        | Instruction::Add(x, y)
        | Instruction::Sub(x, y)
        | Instruction::SubReverse(x, y)
        | Instruction::SkipNotEqual(x, y) => x < 16 && y < 16,
        Instruction::Draw(x, y, n) => x < 16 && y < 16 && n < 16,
        Instruction::ShiftRight(x)
        | Instruction::ShiftLeft(x)
        | Instruction::SkipKeyPressed(x)
        | Instruction::SkipKeyNotPressed(x)
        | Instruction::LoadDelay(x)
        | Instruction::WaitKey(x)
        | Instruction::SetDelay(x)
        | Instruction::SetSound(x)
        | Instruction::AddIndex(x)
        | Instruction::FontAddress(x)
        | Instruction::StoreDigits(x)
        | Instruction::StoreRegisters(x)
        | Instruction::LoadRegisters(x) => x < 16,
    }
}

/// Decodes one instruction word.
pub fn decode(word: u16) -> (ins: Instruction)
    ensures
        ins == spec_decode(word),
        operands_in_range(ins),
{
    let op: u8 = (word / 4096) as u8;
    let x: u8 = (word / 256 % 16) as u8;
    let y: u8 = (word / 16 % 16) as u8;
    let n: u8 = (word % 16) as u8;
    let nnn: u16 = word % 4096;
    let kk: u8 = (word % 256) as u8;
    if word == 0x00E0 {
        return Instruction::ClearScreen;
    }
    if word == 0x00EE {
        return Instruction::Return;
    }
    match op {
        1 => Instruction::Jump(nnn),
        2 => Instruction::Call(nnn),
        3 => Instruction::SkipEqualByte(x, kk),
        4 => Instruction::SkipNotEqualByte(x, kk),
        5 => if n == 0 {
            Instruction::SkipEqual(x, y)
        } else {
            Instruction::Unknown(word)
        },
        6 => Instruction::LoadByte(x, kk),
        7 => Instruction::AddByte(x, kk),
        8 => match n {
            0 => Instruction::Move(x, y),
            1 => Instruction::Or(x, y),
            2 => Instruction::And(x, y),
            3 => Instruction::Xor(x, y),
            4 => Instruction::Add(x, y),
            5 => Instruction::Sub(x, y),
            6 => Instruction::ShiftRight(x),
            7 => Instruction::SubReverse(x, y),
            0xE => Instruction::ShiftLeft(x),
            _ => Instruction::Unknown(word),
        },
        9 => if n == 0 {
            Instruction::SkipNotEqual(x, y)
        } else {
            Instruction::Unknown(word)
        },
        0xA => Instruction::SetIndex(nnn),
        0xB => Instruction::JumpIndexed(nnn),
        0xC => Instruction::Random(x, kk),
        0xD => Instruction::Draw(x, y, n),
        0xE => match kk {
            0x9E => Instruction::SkipKeyPressed(x),
            0xA1 => Instruction::SkipKeyNotPressed(x),
            _ => Instruction::Unknown(word),
        },
        0xF => match kk {
            0x07 => Instruction::LoadDelay(x),
            0x0A => Instruction::WaitKey(x),
            0x15 => Instruction::SetDelay(x),
            0x18 => Instruction::SetSound(x),
            0x1E => Instruction::AddIndex(x),
            0x29 => Instruction::FontAddress(x),
            0x33 => Instruction::StoreDigits(x),
            0x55 => Instruction::StoreRegisters(x),
            0x65 => Instruction::LoadRegisters(x),
            _ => Instruction::Unknown(word),
        },
        _ => Instruction::Unknown(word),
    }
}

} // verus!
