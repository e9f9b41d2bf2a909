//! The instruction set and the instruction decoder.
//!
//! Every instruction is one 16-bit word. In the patterns below `x` and `y`
//! are register numbers, `k` is a 4-bit literal, `kk` a byte and `kkk` a
//! 12-bit address.

use crate::opcode::{encoding, lemma_bit_ranges, OpCode};
use vstd::prelude::*;
use vstd::std_specs::convert::TryFromSpecImpl;

verus! {

/// One instruction with its operands. A register number and a literal use
/// four bits, an address twelve; [`Instruction::operands_fit`] says whether
/// they stay within that.
#[derive(Copy, Clone, PartialEq, Eq, Structural, Debug, PartialOrd, Ord, Hash)]
pub enum Instruction {
    /// `00Ck`: scrolls the display down by `k` lines.
    ScrollDown(u8),
    /// `00FB`: scrolls the display right by four pixels.
    ScrollRight,
    /// `00FC`: scrolls the display left by four pixels.
    ScrollLeft,
    /// `00FD`: stops the machine.
    Exit,
    /// `00FE`: switches the display to 64 by 32 pixels.
    LowRes,
    /// `00FF`: switches the display to 128 by 64 pixels.
    HighRes,
    /// `00E0`: clears the display.
    ClearScreen,
    /// `00EE`: returns from a subroutine.
    Return,
    /// `1kkk`: jumps to `kkk`.
    Jump(u16),
    /// `2kkk`: calls the subroutine at `kkk`.
    Call(u16),
    /// `3xkk`: skips the next instruction if `Vx == kk`.
    SkipEqualImmediate(u8, u8),
    /// `4xkk`: skips the next instruction if `Vx != kk`.
    SkipNotEqualImmediate(u8, u8),
    /// `5xy0`: skips the next instruction if `Vx == Vy`.
    SkipEqual(u8, u8),
    /// `6xkk`: sets `Vx` to `kk`.
    LoadImmediate(u8, u8),
    /// `7xkk`: adds `kk` to `Vx`, without a carry flag.
    AddImmediate(u8, u8),
    /// `8xy0`: sets `Vx` to `Vy`.
    Load(u8, u8),
    /// `8xy1`: sets `Vx` to `Vx | Vy`.
    Or(u8, u8),
    /// `8xy2`: sets `Vx` to `Vx & Vy`.
    And(u8, u8),
    /// `8xy3`: sets `Vx` to `Vx ^ Vy`.
    Xor(u8, u8),
    /// `8xy4`: adds `Vy` to `Vx`; `VF` is the carry.
    Add(u8, u8),
    /// `8xy5`: subtracts `Vy` from `Vx`; `VF` is 1 unless the subtraction borrows.
    Sub(u8, u8),
    /// `8xy6`: halves `Vx`; `VF` is the bit shifted out.
    ShiftRight(u8, u8),
    /// `8xy7`: sets `Vx` to `Vy - Vx`; `VF` is 1 unless the subtraction borrows.
    SubNumeric(u8, u8),
    /// `8xyE`: doubles `Vx`; `VF` is the bit shifted out.
    ShiftLeft(u8, u8),
    /// `9xy0`: skips the next instruction if `Vx != Vy`.
    SkipNotEqual(u8, u8),
    /// `Akkk`: sets `I` to `kkk`.
    LoadI(u16),
    /// `Bkkk`: jumps to `kkk + V0`.
    JumpImmediate(u16),
    /// `Cxkk`: sets `Vx` to a random byte masked with `kk`.
    Random(u8, u8),
    /// `Dxyk`: draws the `k`-byte sprite at `I` from (`Vx`, `Vy`); `VF` is the collision flag.
    Draw(u8, u8, u8),
    /// `Ex9E`: skips the next instruction if the key `Vx` is down.
    SkipOnKey(u8),
    /// `ExA1`: skips the next instruction if the key `Vx` is up.
    SkipNotOnKey(u8),
    /// `Fx07`: sets `Vx` to the delay timer.
    LoadDTIntoV(u8),
    /// `Fx0A`: waits for a key press and stores the key in `Vx`.
    LoadKey(u8),
    /// `Fx15`: sets the delay timer to `Vx`.
    LoadVIntoDT(u8),
    /// `Fx18`: sets the sound timer to `Vx`.
    LoadVIntoST(u8),
    /// `Fx1E`: adds `Vx` to `I`.
    AddI(u8),
    /// `Fx29`: sets `I` to the address of the glyph for the digit `Vx`.
    LoadSpriteIntoI(u8),
    /// `Fx33`: stores the decimal digits of `Vx` at `I`, `I + 1` and `I + 2`.
    LoadBCDIntoI(u8),
    /// `Fx55`: stores `V0` to `Vx` in memory from `I` on.
    LoadVIntoMem(u8),
    /// `Fx65`: loads `V0` to `Vx` from memory from `I` on.
    LoadMemIntoV(u8),
}

/// Why a word could not be decoded.
#[derive(Copy, Clone, PartialEq, Eq, Structural, Debug)]
pub enum DecodeError {
    /// The word is the encoding of no instruction.
    UnsupportedOpcode(OpCode),
}

/// The instruction that `word` encodes, if there is one.
pub open spec fn decoding(word: u16) -> Option<Instruction> {
    selected(
        word / 0x1000,
        (word / 0x10) % 0x100,
        ((word / 0x100) % 0x10) as u8,
        ((word / 0x10) % 0x10) as u8,
        (word % 0x10) as u8,
        (word % 0x100) as u8,
        (word % 0x1000) as u16,
    )
}

/// The instruction that the fields of a word select, if they select one:
/// `family` is the top nibble, `middle` the two nibbles in the middle, `x`
/// and `y` are those two nibbles one by one, `k` is the low nibble, `kk` the
/// low byte and `kkk` the low twelve bits.
pub open spec fn selected(
    family: u16,
    middle: u16,
    x: u8,
    y: u8,
    k: u8,
    kk: u8,
    kkk: u16,
) -> Option<Instruction> {
    match family {
        0x0 => match middle {
            0x0C => Some(Instruction::ScrollDown(k)),
            0x0F => match k {
                0xB => Some(Instruction::ScrollRight),
                0xC => Some(Instruction::ScrollLeft),
                0xD => Some(Instruction::Exit),
                0xE => Some(Instruction::LowRes),
                0xF => Some(Instruction::HighRes),
                _ => None,
            },
            0x0E => match k {
                0x0 => Some(Instruction::ClearScreen),
                0xE => Some(Instruction::Return),
                _ => None,
            },
            _ => None,
        },
        0x1 => Some(Instruction::Jump(kkk)),
        0x2 => Some(Instruction::Call(kkk)),
        0x3 => Some(Instruction::SkipEqualImmediate(x, kk)),
        0x4 => Some(Instruction::SkipNotEqualImmediate(x, kk)),
        0x5 => match k {
            0x0 => Some(Instruction::SkipEqual(x, y)),
            _ => None,
        },
        0x6 => Some(Instruction::LoadImmediate(x, kk)),
        0x7 => Some(Instruction::AddImmediate(x, kk)),
        0x8 => match k {
            0x0 => Some(Instruction::Load(x, y)),
            0x1 => Some(Instruction::Or(x, y)),
            0x2 => Some(Instruction::And(x, y)),
            0x3 => Some(Instruction::Xor(x, y)),
            0x4 => Some(Instruction::Add(x, y)),
            0x5 => Some(Instruction::Sub(x, y)),
            0x6 => Some(Instruction::ShiftRight(x, y)),
            0x7 => Some(Instruction::SubNumeric(x, y)),
            0xE => Some(Instruction::ShiftLeft(x, y)),
            _ => None,
        },
        0x9 => match k {
            0x0 => Some(Instruction::SkipNotEqual(x, y)),
            _ => None,
        },
        0xA => Some(Instruction::LoadI(kkk)),
        0xB => Some(Instruction::JumpImmediate(kkk)),
        0xC => Some(Instruction::Random(x, kk)),
        0xD => Some(Instruction::Draw(x, y, k)),
        0xE => match kk {
            0x9E => Some(Instruction::SkipOnKey(x)),
            0xA1 => Some(Instruction::SkipNotOnKey(x)),
            _ => None,
        },
        0xF => match kk {
            0x07 => Some(Instruction::LoadDTIntoV(x)),
            0x0A => Some(Instruction::LoadKey(x)),
            0x15 => Some(Instruction::LoadVIntoDT(x)),
            0x18 => Some(Instruction::LoadVIntoST(x)),
            0x1E => Some(Instruction::AddI(x)),
            0x29 => Some(Instruction::LoadSpriteIntoI(x)),
            0x33 => Some(Instruction::LoadBCDIntoI(x)),
            0x55 => Some(Instruction::LoadVIntoMem(x)),
            0x65 => Some(Instruction::LoadMemIntoV(x)),
            _ => None,
        },
        _ => None,
    }
}

/// What decoding `opcode` gives: its instruction, or the error that carries the word.
pub open spec fn decoded(opcode: OpCode) -> Result<Instruction, DecodeError> {
    match decoding(opcode.0) {
        Some(instruction) => Ok(instruction),
        None => Err(DecodeError::UnsupportedOpcode(opcode)),
    }
}

impl Instruction {
    /// Every operand fits the field that the encoding gives it: a register
    /// number and a literal are below 16, an address is below 4096.
    pub open spec fn operands_fit(self) -> bool {
        match self {
            Instruction::ScrollDown(k) => k < 0x10,
            Instruction::ScrollRight => true,
            Instruction::ScrollLeft => true,
            Instruction::Exit => true,
            Instruction::LowRes => true,
            Instruction::HighRes => true,
            Instruction::ClearScreen => true,
            Instruction::Return => true,
            Instruction::Jump(addr) => addr < 0x1000,
            Instruction::Call(addr) => addr < 0x1000,
            Instruction::SkipEqualImmediate(vx, byte) => vx < 0x10,
            Instruction::SkipNotEqualImmediate(vx, byte) => vx < 0x10,
            Instruction::SkipEqual(vx, vy) => vx < 0x10 && vy < 0x10,
            Instruction::LoadImmediate(vx, byte) => vx < 0x10,
            Instruction::AddImmediate(vx, byte) => vx < 0x10,
            Instruction::Load(vx, vy) => vx < 0x10 && vy < 0x10,
            Instruction::Or(vx, vy) => vx < 0x10 && vy < 0x10,
            Instruction::And(vx, vy) => vx < 0x10 && vy < 0x10,
            Instruction::Xor(vx, vy) => vx < 0x10 && vy < 0x10,
            Instruction::Add(vx, vy) => vx < 0x10 && vy < 0x10,
            Instruction::Sub(vx, vy) => vx < 0x10 && vy < 0x10,
            Instruction::ShiftRight(vx, vy) => vx < 0x10 && vy < 0x10,
            Instruction::SubNumeric(vx, vy) => vx < 0x10 && vy < 0x10,
            Instruction::ShiftLeft(vx, vy) => vx < 0x10 && vy < 0x10,
            Instruction::SkipNotEqual(vx, vy) => vx < 0x10 && vy < 0x10,
            Instruction::LoadI(addr) => addr < 0x1000,
            Instruction::JumpImmediate(addr) => addr < 0x1000,
            Instruction::Random(vx, byte) => vx < 0x10,
            Instruction::Draw(vx, vy, nibble) => vx < 0x10 && vy < 0x10 && nibble < 0x10,
            Instruction::SkipOnKey(vx) => vx < 0x10,
            Instruction::SkipNotOnKey(vx) => vx < 0x10,
            Instruction::LoadDTIntoV(vx) => vx < 0x10,
            Instruction::LoadKey(vx) => vx < 0x10,
            Instruction::LoadVIntoDT(vx) => vx < 0x10,
            Instruction::LoadVIntoST(vx) => vx < 0x10,
            Instruction::AddI(vx) => vx < 0x10,
            Instruction::LoadSpriteIntoI(vx) => vx < 0x10,
            Instruction::LoadBCDIntoI(vx) => vx < 0x10,
            Instruction::LoadVIntoMem(vx) => vx < 0x10,
            Instruction::LoadMemIntoV(vx) => vx < 0x10,
        }
    }

    /// The instruction with every operand cut to the width of its field.
    pub open spec fn canonical(self) -> Instruction {
        match self {
            Instruction::ScrollDown(k) => Instruction::ScrollDown((k % 0x10) as u8),
            Instruction::ScrollRight => Instruction::ScrollRight,
            Instruction::ScrollLeft => Instruction::ScrollLeft,
            Instruction::Exit => Instruction::Exit,
            Instruction::LowRes => Instruction::LowRes,
            Instruction::HighRes => Instruction::HighRes,
            Instruction::ClearScreen => Instruction::ClearScreen,
            Instruction::Return => Instruction::Return,
            Instruction::Jump(addr) => Instruction::Jump((addr % 0x1000) as u16),
            Instruction::Call(addr) => Instruction::Call((addr % 0x1000) as u16),
            Instruction::SkipEqualImmediate(vx, byte) => {
                Instruction::SkipEqualImmediate((vx % 0x10) as u8, byte)
            },
            Instruction::SkipNotEqualImmediate(vx, byte) => {
                Instruction::SkipNotEqualImmediate((vx % 0x10) as u8, byte)
            },
            Instruction::SkipEqual(vx, vy) => {
                Instruction::SkipEqual((vx % 0x10) as u8, (vy % 0x10) as u8)
            },
            Instruction::LoadImmediate(vx, byte) => {
                Instruction::LoadImmediate((vx % 0x10) as u8, byte)
            },
            Instruction::AddImmediate(vx, byte) => {
                Instruction::AddImmediate((vx % 0x10) as u8, byte)
            },
            Instruction::Load(vx, vy) => Instruction::Load((vx % 0x10) as u8, (vy % 0x10) as u8),
            Instruction::Or(vx, vy) => Instruction::Or((vx % 0x10) as u8, (vy % 0x10) as u8),
            Instruction::And(vx, vy) => Instruction::And((vx % 0x10) as u8, (vy % 0x10) as u8),
            Instruction::Xor(vx, vy) => Instruction::Xor((vx % 0x10) as u8, (vy % 0x10) as u8),
            Instruction::Add(vx, vy) => Instruction::Add((vx % 0x10) as u8, (vy % 0x10) as u8),
            Instruction::Sub(vx, vy) => Instruction::Sub((vx % 0x10) as u8, (vy % 0x10) as u8),
            Instruction::ShiftRight(vx, vy) => {
                Instruction::ShiftRight((vx % 0x10) as u8, (vy % 0x10) as u8)
            },
            Instruction::SubNumeric(vx, vy) => {
                Instruction::SubNumeric((vx % 0x10) as u8, (vy % 0x10) as u8)
            },
            Instruction::ShiftLeft(vx, vy) => {
                Instruction::ShiftLeft((vx % 0x10) as u8, (vy % 0x10) as u8)
            },
            Instruction::SkipNotEqual(vx, vy) => {
                Instruction::SkipNotEqual((vx % 0x10) as u8, (vy % 0x10) as u8)
            },
            Instruction::LoadI(addr) => Instruction::LoadI((addr % 0x1000) as u16),
            Instruction::JumpImmediate(addr) => Instruction::JumpImmediate((addr % 0x1000) as u16),
            Instruction::Random(vx, byte) => Instruction::Random((vx % 0x10) as u8, byte),
            Instruction::Draw(vx, vy, nibble) => {
                Instruction::Draw((vx % 0x10) as u8, (vy % 0x10) as u8, (nibble % 0x10) as u8)
            },
            Instruction::SkipOnKey(vx) => Instruction::SkipOnKey((vx % 0x10) as u8),
            Instruction::SkipNotOnKey(vx) => Instruction::SkipNotOnKey((vx % 0x10) as u8),
            Instruction::LoadDTIntoV(vx) => Instruction::LoadDTIntoV((vx % 0x10) as u8),
            Instruction::LoadKey(vx) => Instruction::LoadKey((vx % 0x10) as u8),
            Instruction::LoadVIntoDT(vx) => Instruction::LoadVIntoDT((vx % 0x10) as u8),
            Instruction::LoadVIntoST(vx) => Instruction::LoadVIntoST((vx % 0x10) as u8),
            Instruction::AddI(vx) => Instruction::AddI((vx % 0x10) as u8),
            Instruction::LoadSpriteIntoI(vx) => Instruction::LoadSpriteIntoI((vx % 0x10) as u8),
            Instruction::LoadBCDIntoI(vx) => Instruction::LoadBCDIntoI((vx % 0x10) as u8),
            Instruction::LoadVIntoMem(vx) => Instruction::LoadVIntoMem((vx % 0x10) as u8),
            Instruction::LoadMemIntoV(vx) => Instruction::LoadMemIntoV((vx % 0x10) as u8),
        }
    }

    /// Cuts every operand to the width of its field.
    pub fn to_canonical(self) -> (r: Instruction)
        ensures
            r == self.canonical(),
            r.operands_fit(),
    {
        match self {
            Instruction::ScrollDown(k) => Instruction::ScrollDown(k % 0x10),
            Instruction::ScrollRight => Instruction::ScrollRight,
            Instruction::ScrollLeft => Instruction::ScrollLeft,
            Instruction::Exit => Instruction::Exit,
            Instruction::LowRes => Instruction::LowRes,
            Instruction::HighRes => Instruction::HighRes,
            Instruction::ClearScreen => Instruction::ClearScreen,
            Instruction::Return => Instruction::Return,
            Instruction::Jump(addr) => Instruction::Jump(addr % 0x1000),
            Instruction::Call(addr) => Instruction::Call(addr % 0x1000),
            Instruction::SkipEqualImmediate(vx, byte) => {
                Instruction::SkipEqualImmediate(vx % 0x10, byte)
            },
            Instruction::SkipNotEqualImmediate(vx, byte) => {
                Instruction::SkipNotEqualImmediate(vx % 0x10, byte)
            },
            Instruction::SkipEqual(vx, vy) => Instruction::SkipEqual(vx % 0x10, vy % 0x10),
            Instruction::LoadImmediate(vx, byte) => Instruction::LoadImmediate(vx % 0x10, byte),
            Instruction::AddImmediate(vx, byte) => Instruction::AddImmediate(vx % 0x10, byte),
            Instruction::Load(vx, vy) => Instruction::Load(vx % 0x10, vy % 0x10),
            Instruction::Or(vx, vy) => Instruction::Or(vx % 0x10, vy % 0x10),
            Instruction::And(vx, vy) => Instruction::And(vx % 0x10, vy % 0x10),
            Instruction::Xor(vx, vy) => Instruction::Xor(vx % 0x10, vy % 0x10),
            Instruction::Add(vx, vy) => Instruction::Add(vx % 0x10, vy % 0x10),
            Instruction::Sub(vx, vy) => Instruction::Sub(vx % 0x10, vy % 0x10),
            Instruction::ShiftRight(vx, vy) => Instruction::ShiftRight(vx % 0x10, vy % 0x10),
            Instruction::SubNumeric(vx, vy) => Instruction::SubNumeric(vx % 0x10, vy % 0x10),
            Instruction::ShiftLeft(vx, vy) => Instruction::ShiftLeft(vx % 0x10, vy % 0x10),
            Instruction::SkipNotEqual(vx, vy) => Instruction::SkipNotEqual(vx % 0x10, vy % 0x10),
            Instruction::LoadI(addr) => Instruction::LoadI(addr % 0x1000),
            Instruction::JumpImmediate(addr) => Instruction::JumpImmediate(addr % 0x1000),
            Instruction::Random(vx, byte) => Instruction::Random(vx % 0x10, byte),
            Instruction::Draw(vx, vy, nibble) => {
                Instruction::Draw(vx % 0x10, vy % 0x10, nibble % 0x10)
            },
            Instruction::SkipOnKey(vx) => Instruction::SkipOnKey(vx % 0x10),
            Instruction::SkipNotOnKey(vx) => Instruction::SkipNotOnKey(vx % 0x10),
            Instruction::LoadDTIntoV(vx) => Instruction::LoadDTIntoV(vx % 0x10),
            Instruction::LoadKey(vx) => Instruction::LoadKey(vx % 0x10),
            Instruction::LoadVIntoDT(vx) => Instruction::LoadVIntoDT(vx % 0x10),
            Instruction::LoadVIntoST(vx) => Instruction::LoadVIntoST(vx % 0x10),
            Instruction::AddI(vx) => Instruction::AddI(vx % 0x10),
            Instruction::LoadSpriteIntoI(vx) => Instruction::LoadSpriteIntoI(vx % 0x10),
            Instruction::LoadBCDIntoI(vx) => Instruction::LoadBCDIntoI(vx % 0x10),
            Instruction::LoadVIntoMem(vx) => Instruction::LoadVIntoMem(vx % 0x10),
            Instruction::LoadMemIntoV(vx) => Instruction::LoadMemIntoV(vx % 0x10),
        }
    }

    /// The word of this instruction.
    pub fn encode(self) -> (r: OpCode)
        ensures
            r.0 == encoding(self),
    {
        OpCode::from(self)
    }

    /// The instruction of a word; a word outside the instruction table is an error.
    pub fn decode(opcode: OpCode) -> (r: Result<Instruction, DecodeError>)
        ensures
            r == decoded(opcode),
    {
        Instruction::try_from(opcode)
    }
}

impl TryFrom<OpCode> for Instruction {
    type Error = DecodeError;

    fn try_from(opcode: OpCode) -> (r: Result<Instruction, DecodeError>) {
        proof {
            lemma_bit_ranges(opcode.0);
        }
        let x: u8 = opcode.load(8, 12) as u8;
        let y: u8 = opcode.load(4, 8) as u8;
        let k: u8 = opcode.load(0, 4) as u8;
        let kk: u8 = opcode.load(0, 8) as u8;
        let kkk: u16 = opcode.load(0, 12);
        let unsupported: Result<Instruction, DecodeError> = Err(
            DecodeError::UnsupportedOpcode(opcode),
        );
        match opcode.load(12, 16) {
            0x0 => match opcode.load(4, 12) {
                0x0C => Ok(Instruction::ScrollDown(k)),
                0x0F => match k {
                    0xB => Ok(Instruction::ScrollRight),
                    0xC => Ok(Instruction::ScrollLeft),
                    0xD => Ok(Instruction::Exit),
                    0xE => Ok(Instruction::LowRes),
                    0xF => Ok(Instruction::HighRes),
                    _ => unsupported,
                },
                0x0E => match k {
                    0x0 => Ok(Instruction::ClearScreen),
                    0xE => Ok(Instruction::Return),
                    _ => unsupported,
                },
                _ => unsupported,
            },
            0x1 => Ok(Instruction::Jump(kkk)),
            0x2 => Ok(Instruction::Call(kkk)),
            0x3 => Ok(Instruction::SkipEqualImmediate(x, kk)),
            0x4 => Ok(Instruction::SkipNotEqualImmediate(x, kk)),
            0x5 => match k {
                0x0 => Ok(Instruction::SkipEqual(x, y)),
                _ => unsupported,
            },
            0x6 => Ok(Instruction::LoadImmediate(x, kk)),
            0x7 => Ok(Instruction::AddImmediate(x, kk)),
            0x8 => match k {
                0x0 => Ok(Instruction::Load(x, y)),
                0x1 => Ok(Instruction::Or(x, y)),
                0x2 => Ok(Instruction::And(x, y)),
                0x3 => Ok(Instruction::Xor(x, y)),
                0x4 => Ok(Instruction::Add(x, y)),
                0x5 => Ok(Instruction::Sub(x, y)),
                0x6 => Ok(Instruction::ShiftRight(x, y)),
                0x7 => Ok(Instruction::SubNumeric(x, y)),
                0xE => Ok(Instruction::ShiftLeft(x, y)),
                _ => unsupported,
            },
            0x9 => match k {
                0x0 => Ok(Instruction::SkipNotEqual(x, y)),
                _ => unsupported,
            },
            0xA => Ok(Instruction::LoadI(kkk)),
            0xB => Ok(Instruction::JumpImmediate(kkk)),
            0xC => Ok(Instruction::Random(x, kk)),
            0xD => Ok(Instruction::Draw(x, y, k)),
            0xE => match kk {
                0x9E => Ok(Instruction::SkipOnKey(x)),
                0xA1 => Ok(Instruction::SkipNotOnKey(x)),
                _ => unsupported,
            },
            0xF => match kk {
                0x07 => Ok(Instruction::LoadDTIntoV(x)),
                0x0A => Ok(Instruction::LoadKey(x)),
                0x15 => Ok(Instruction::LoadVIntoDT(x)),
                0x18 => Ok(Instruction::LoadVIntoST(x)),
                0x1E => Ok(Instruction::AddI(x)),
                0x29 => Ok(Instruction::LoadSpriteIntoI(x)),
                0x33 => Ok(Instruction::LoadBCDIntoI(x)),
                0x55 => Ok(Instruction::LoadVIntoMem(x)),
                0x65 => Ok(Instruction::LoadMemIntoV(x)),
                _ => unsupported,
            },
            _ => unsupported,
        }
    }
}

impl TryFromSpecImpl<OpCode> for Instruction {
    open spec fn obeys_try_from_spec() -> bool {
        true
    }

    open spec fn try_from_spec(opcode: OpCode) -> Result<Instruction, DecodeError> {
        decoded(opcode)
    }
}

/// Nibbles put side by side come apart again.
proof fn lemma_split_nibbles(o: u16, x: u16, y: u16, k: u16)
    by (bit_vector)
    requires
        o < 0x10,
        x < 0x10,
        y < 0x10,
        k < 0x10,
    ensures
        ({
            let w = (o * 0x1000 + x * 0x100 + y * 0x10 + k) as u16;
            &&& w == o * 0x1000 + x * 0x100 + y * 0x10 + k
            &&& w / 0x1000 == o
            &&& (w / 0x100) % 0x10 == x
            &&& (w / 0x10) % 0x10 == y
            &&& w % 0x10 == k
            &&& w % 0x100 == y * 0x10 + k
            &&& w % 0x1000 == x * 0x100 + y * 0x10 + k
            &&& (w / 0x10) % 0x100 == x * 0x10 + y
        }),
{
}

/// A word is its four nibbles put side by side.
proof fn lemma_join_nibbles(w: u16)
    by (bit_vector)
    ensures
        w == (w / 0x1000) * 0x1000 + ((w / 0x100) % 0x10) * 0x100 + ((w / 0x10) % 0x10) * 0x10 + w
            % 0x10,
        w / 0x1000 < 0x10,
        w % 0x100 == ((w / 0x10) % 0x10) * 0x10 + w % 0x10,
        w % 0x1000 == ((w / 0x100) % 0x10) * 0x100 + ((w / 0x10) % 0x10) * 0x10 + w % 0x10,
        (w / 0x10) % 0x100 == ((w / 0x100) % 0x10) * 0x10 + (w / 0x10) % 0x10,
{
}

/// Decoding the word of any instruction gives the instruction back, with
/// each operand cut to the width of its field.
pub proof fn lemma_decode_encode_canonical(instruction: Instruction)
    ensures
        0 <= encoding(instruction) <= u16::MAX,
        decoding(encoding(instruction) as u16) == Some(instruction.canonical()),
{
    match instruction {
        Instruction::ScrollDown(k) => {
            lemma_split_nibbles(0x0, 0x0, 0xC, (k % 0x10) as u16);
        },
        Instruction::ScrollRight => {
            lemma_split_nibbles(0x0, 0x0, 0xF, 0xB);
        },
        Instruction::ScrollLeft => {
            lemma_split_nibbles(0x0, 0x0, 0xF, 0xC);
        },
        Instruction::Exit => {
            lemma_split_nibbles(0x0, 0x0, 0xF, 0xD);
        },
        Instruction::LowRes => {
            lemma_split_nibbles(0x0, 0x0, 0xF, 0xE);
        },
        Instruction::HighRes => {
            lemma_split_nibbles(0x0, 0x0, 0xF, 0xF);
        },
        Instruction::ClearScreen => {
            lemma_split_nibbles(0x0, 0x0, 0xE, 0x0);
        },
        Instruction::Return => {
            lemma_split_nibbles(0x0, 0x0, 0xE, 0xE);
        },
        Instruction::Jump(addr) => {
            let a = (addr % 0x1000) as u16;
            lemma_join_nibbles(a);
            lemma_split_nibbles(0x1, a / 0x100, (a / 0x10) % 0x10, a % 0x10);
        },
        Instruction::Call(addr) => {
            let a = (addr % 0x1000) as u16;
            lemma_join_nibbles(a);
            lemma_split_nibbles(0x2, a / 0x100, (a / 0x10) % 0x10, a % 0x10);
        },
        Instruction::SkipEqualImmediate(vx, byte) => {
            lemma_split_nibbles(
                0x3,
                (vx % 0x10) as u16,
                (byte / 0x10) as u16,
                (byte % 0x10) as u16,
            );
        },
        Instruction::SkipNotEqualImmediate(vx, byte) => {
            lemma_split_nibbles(
                0x4,
                (vx % 0x10) as u16,
                (byte / 0x10) as u16,
                (byte % 0x10) as u16,
            );
        },
        Instruction::SkipEqual(vx, vy) => {
            lemma_split_nibbles(0x5, (vx % 0x10) as u16, (vy % 0x10) as u16, 0x0);
        },
        Instruction::LoadImmediate(vx, byte) => {
            lemma_split_nibbles(
                0x6,
                (vx % 0x10) as u16,
                (byte / 0x10) as u16,
                (byte % 0x10) as u16,
            );
        },
        Instruction::AddImmediate(vx, byte) => {
            lemma_split_nibbles(
                0x7,
                (vx % 0x10) as u16,
                (byte / 0x10) as u16,
                (byte % 0x10) as u16,
            );
        },
        Instruction::Load(vx, vy) => {
            lemma_split_nibbles(0x8, (vx % 0x10) as u16, (vy % 0x10) as u16, 0x0);
        },
        Instruction::Or(vx, vy) => {
            lemma_split_nibbles(0x8, (vx % 0x10) as u16, (vy % 0x10) as u16, 0x1);
        },
        Instruction::And(vx, vy) => {
            lemma_split_nibbles(0x8, (vx % 0x10) as u16, (vy % 0x10) as u16, 0x2);
        },
        Instruction::Xor(vx, vy) => {
            lemma_split_nibbles(0x8, (vx % 0x10) as u16, (vy % 0x10) as u16, 0x3);
        },
        Instruction::Add(vx, vy) => {
            lemma_split_nibbles(0x8, (vx % 0x10) as u16, (vy % 0x10) as u16, 0x4);
        },
        Instruction::Sub(vx, vy) => {
            lemma_split_nibbles(0x8, (vx % 0x10) as u16, (vy % 0x10) as u16, 0x5);
        },
        Instruction::ShiftRight(vx, vy) => {
            lemma_split_nibbles(0x8, (vx % 0x10) as u16, (vy % 0x10) as u16, 0x6);
        },
        Instruction::SubNumeric(vx, vy) => {
            lemma_split_nibbles(0x8, (vx % 0x10) as u16, (vy % 0x10) as u16, 0x7);
        },
        Instruction::ShiftLeft(vx, vy) => {
            lemma_split_nibbles(0x8, (vx % 0x10) as u16, (vy % 0x10) as u16, 0xE);
        },
        Instruction::SkipNotEqual(vx, vy) => {
            lemma_split_nibbles(0x9, (vx % 0x10) as u16, (vy % 0x10) as u16, 0x0);
        },
        Instruction::LoadI(addr) => {
            let a = (addr % 0x1000) as u16;
            lemma_join_nibbles(a);
            lemma_split_nibbles(0xA, a / 0x100, (a / 0x10) % 0x10, a % 0x10);
        },
        Instruction::JumpImmediate(addr) => {
            let a = (addr % 0x1000) as u16;
            lemma_join_nibbles(a);
            lemma_split_nibbles(0xB, a / 0x100, (a / 0x10) % 0x10, a % 0x10);
        },
        Instruction::Random(vx, byte) => {
            lemma_split_nibbles(
                0xC,
                (vx % 0x10) as u16,
                (byte / 0x10) as u16,
                (byte % 0x10) as u16,
            );
        },
        Instruction::Draw(vx, vy, nibble) => {
            lemma_split_nibbles(
                0xD,
                (vx % 0x10) as u16,
                (vy % 0x10) as u16,
                (nibble % 0x10) as u16,
            );
        },
        Instruction::SkipOnKey(vx) => {
            lemma_split_nibbles(0xE, (vx % 0x10) as u16, 0x9, 0xE);
        },
        Instruction::SkipNotOnKey(vx) => {
            lemma_split_nibbles(0xE, (vx % 0x10) as u16, 0xA, 0x1);
        },
        Instruction::LoadDTIntoV(vx) => {
            lemma_split_nibbles(0xF, (vx % 0x10) as u16, 0x0, 0x7);
        },
        Instruction::LoadKey(vx) => {
            lemma_split_nibbles(0xF, (vx % 0x10) as u16, 0x0, 0xA);
        },
        Instruction::LoadVIntoDT(vx) => {
            lemma_split_nibbles(0xF, (vx % 0x10) as u16, 0x1, 0x5);
        },
        Instruction::LoadVIntoST(vx) => {
            lemma_split_nibbles(0xF, (vx % 0x10) as u16, 0x1, 0x8);
        },
        Instruction::AddI(vx) => {
            lemma_split_nibbles(0xF, (vx % 0x10) as u16, 0x1, 0xE);
        },
        Instruction::LoadSpriteIntoI(vx) => {
            lemma_split_nibbles(0xF, (vx % 0x10) as u16, 0x2, 0x9);
        },
        Instruction::LoadBCDIntoI(vx) => {
            lemma_split_nibbles(0xF, (vx % 0x10) as u16, 0x3, 0x3);
        },
        Instruction::LoadVIntoMem(vx) => {
            lemma_split_nibbles(0xF, (vx % 0x10) as u16, 0x5, 0x5);
        },
        Instruction::LoadMemIntoV(vx) => {
            lemma_split_nibbles(0xF, (vx % 0x10) as u16, 0x6, 0x5);
        },
    }
}

/// Cutting the operands changes nothing where they fit their fields.
pub proof fn lemma_canonical_fixed(instruction: Instruction)
    ensures
        instruction.canonical().operands_fit(),
        instruction.operands_fit() <==> instruction.canonical() == instruction,
{
}

/// Encoding and then decoding is the identity on every instruction whose
/// operands fit their fields.
pub proof fn lemma_decode_encode(instruction: Instruction)
    requires
        instruction.operands_fit(),
    ensures
        decoded(OpCode(encoding(instruction) as u16)) == Ok::<Instruction, DecodeError>(
            instruction,
        ),
{
    lemma_decode_encode_canonical(instruction);
    lemma_canonical_fixed(instruction);
}

/// A word that decodes is the encoding of the instruction it decodes to, and
/// that instruction's operands fit their fields.
pub proof fn lemma_encode_decode(word: u16)
    ensures
        decoding(word) matches Some(instruction) ==> encoding(instruction) == word
            && instruction.operands_fit(),
{
    lemma_join_nibbles(word);
    lemma_selected_encodes(
        word / 0x1000,
        ((word / 0x100) % 0x10) as u8,
        ((word / 0x10) % 0x10) as u8,
        (word % 0x10) as u8,
    );
}

/// An instruction selected by four nibbles encodes to them, put side by side.
proof fn lemma_selected_encodes(family: u16, x: u8, y: u8, k: u8)
    requires
        family < 0x10,
        x < 0x10,
        y < 0x10,
        k < 0x10,
    ensures
        selected(
            family,
            (x * 0x10 + y) as u16,
            x,
            y,
            k,
            (y * 0x10 + k) as u8,
            (x * 0x100 + y * 0x10 + k) as u16,
        ) matches Some(instruction) ==> encoding(instruction) == family * 0x1000 + x * 0x100 + y
            * 0x10 + k && instruction.operands_fit(),
{
    let word = family * 0x1000 + x * 0x100 + y * 0x10 + k;
    let kk = (y * 0x10 + k) as u8;
    let kkk = (x * 0x100 + y * 0x10 + k) as u16;
    match selected(family, (x * 0x10 + y) as u16, x, y, k, kk, kkk) {
        Some(instruction) => {
            assert(x % 0x10 == x && y % 0x10 == y && k % 0x10 == k && kkk % 0x1000 == kkk);
            if family == 0x0 {
                assert(x == 0);
                assert(encoding(instruction) == word);
            } else if family == 0x8 {
                assert(encoding(instruction) == word);
            } else if family == 0xE {
                assert(encoding(instruction) == word);
            } else if family == 0xF {
                assert(encoding(instruction) == word);
            } else {
                assert(encoding(instruction) == word);
            }
            assert(instruction.operands_fit());
        },
        None => {},
    }
}

/// Decoding fails on exactly the words that encode no instruction, and the
/// error carries the word.
pub proof fn lemma_unsupported(opcode: OpCode)
    ensures
        decoded(opcode) == Err::<Instruction, DecodeError>(DecodeError::UnsupportedOpcode(opcode))
            <==> (forall|instruction: Instruction| encoding(instruction) != opcode.0),
{
    lemma_encode_decode(opcode.0);
    if decoding(opcode.0) is None {
        assert forall|instruction: Instruction| encoding(instruction) != opcode.0 by {
            lemma_decode_encode_canonical(instruction);
        }
    }
}

} // verus!
