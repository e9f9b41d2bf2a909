//! The 16-bit instruction word, its bit fields and the instruction encoder.
//!
//! Bits are counted from the least significant one, so the nibble that selects
//! the instruction family sits in bits `12..16`.

use crate::instructions::Instruction;
use bitvec::prelude::{AsBits, BitField, Lsb0};
use vstd::arithmetic::power2::{lemma2_to64, pow2};
use vstd::prelude::*;
use vstd::std_specs::convert::FromSpecImpl;

verus! {

/// The word that encodes an instruction. An operand wider than its field
/// loses its high bits.
pub open spec fn encoding(instruction: Instruction) -> int {
    match instruction {
        Instruction::ScrollDown(k) => 0x00C0 + k % 0x10,
        Instruction::ScrollRight => 0x00FB,
        Instruction::ScrollLeft => 0x00FC,
        Instruction::Exit => 0x00FD,
        Instruction::LowRes => 0x00FE,
        Instruction::HighRes => 0x00FF,
        Instruction::ClearScreen => 0x00E0,
        Instruction::Return => 0x00EE,
        Instruction::Jump(addr) => 0x1000 + addr % 0x1000,
        Instruction::Call(addr) => 0x2000 + addr % 0x1000,
        Instruction::SkipEqualImmediate(vx, byte) => 0x3000 + (vx % 0x10) * 0x100 + byte,
        Instruction::SkipNotEqualImmediate(vx, byte) => 0x4000 + (vx % 0x10) * 0x100 + byte,
        Instruction::SkipEqual(vx, vy) => 0x5000 + (vx % 0x10) * 0x100 + (vy % 0x10) * 0x10,
        Instruction::LoadImmediate(vx, byte) => 0x6000 + (vx % 0x10) * 0x100 + byte,
        Instruction::AddImmediate(vx, byte) => 0x7000 + (vx % 0x10) * 0x100 + byte,
        Instruction::Load(vx, vy) => 0x8000 + (vx % 0x10) * 0x100 + (vy % 0x10) * 0x10,
        Instruction::Or(vx, vy) => 0x8001 + (vx % 0x10) * 0x100 + (vy % 0x10) * 0x10,
        Instruction::And(vx, vy) => 0x8002 + (vx % 0x10) * 0x100 + (vy % 0x10) * 0x10,
        Instruction::Xor(vx, vy) => 0x8003 + (vx % 0x10) * 0x100 + (vy % 0x10) * 0x10,
        Instruction::Add(vx, vy) => 0x8004 + (vx % 0x10) * 0x100 + (vy % 0x10) * 0x10,
        Instruction::Sub(vx, vy) => 0x8005 + (vx % 0x10) * 0x100 + (vy % 0x10) * 0x10,
        Instruction::ShiftRight(vx, vy) => 0x8006 + (vx % 0x10) * 0x100 + (vy % 0x10) * 0x10,
        Instruction::SubNumeric(vx, vy) => 0x8007 + (vx % 0x10) * 0x100 + (vy % 0x10) * 0x10,
        Instruction::ShiftLeft(vx, vy) => 0x800E + (vx % 0x10) * 0x100 + (vy % 0x10) * 0x10,
        Instruction::SkipNotEqual(vx, vy) => 0x9000 + (vx % 0x10) * 0x100 + (vy % 0x10) * 0x10,
        Instruction::LoadI(addr) => 0xA000 + addr % 0x1000,
        Instruction::JumpImmediate(addr) => 0xB000 + addr % 0x1000,
        Instruction::Random(vx, byte) => 0xC000 + (vx % 0x10) * 0x100 + byte,
        Instruction::Draw(vx, vy, nibble) => {
            0xD000 + (vx % 0x10) * 0x100 + (vy % 0x10) * 0x10 + nibble % 0x10
        },
        Instruction::SkipOnKey(vx) => 0xE09E + (vx % 0x10) * 0x100,
        Instruction::SkipNotOnKey(vx) => 0xE0A1 + (vx % 0x10) * 0x100,
        Instruction::LoadDTIntoV(vx) => 0xF007 + (vx % 0x10) * 0x100,
        Instruction::LoadKey(vx) => 0xF00A + (vx % 0x10) * 0x100,
        Instruction::LoadVIntoDT(vx) => 0xF015 + (vx % 0x10) * 0x100,
        Instruction::LoadVIntoST(vx) => 0xF018 + (vx % 0x10) * 0x100,
        Instruction::AddI(vx) => 0xF01E + (vx % 0x10) * 0x100,
        Instruction::LoadSpriteIntoI(vx) => 0xF029 + (vx % 0x10) * 0x100,
        Instruction::LoadBCDIntoI(vx) => 0xF033 + (vx % 0x10) * 0x100,
        Instruction::LoadVIntoMem(vx) => 0xF055 + (vx % 0x10) * 0x100,
        Instruction::LoadMemIntoV(vx) => 0xF065 + (vx % 0x10) * 0x100,
    }
}

/// The bits `lo..hi` of `word`, read as a number.
pub open spec fn bit_range(word: u16, lo: nat, hi: nat) -> nat {
    (word as nat / pow2(lo)) % pow2((hi - lo) as nat)
}

/// `word` with its bits `lo..hi` replaced by the low `hi - lo` bits of `value`.
pub open spec fn with_bit_range(word: u16, lo: nat, hi: nat, value: u16) -> int {
    word - bit_range(word, lo, hi) * pow2(lo) + (value as nat % pow2((hi - lo) as nat)) * pow2(lo)
}

/// The powers of two at the nibble boundaries of a word.
proof fn lemma_nibble_powers()
    ensures
        pow2(0) == 0x1,
        pow2(4) == 0x10,
        pow2(8) == 0x100,
        pow2(12) == 0x1000,
        pow2(16) == 0x10000,
{
    lemma2_to64();
}

/// The bit ranges that the instruction layouts read, in plain arithmetic.
pub proof fn lemma_bit_ranges(word: u16)
    ensures
        bit_range(word, 0, 16) == word,
        bit_range(word, 12, 16) == word / 0x1000,
        bit_range(word, 8, 12) == (word / 0x100) % 0x10,
        bit_range(word, 4, 8) == (word / 0x10) % 0x10,
        bit_range(word, 0, 4) == word % 0x10,
        bit_range(word, 0, 8) == word % 0x100,
        bit_range(word, 0, 12) == word % 0x1000,
        bit_range(word, 4, 12) == (word / 0x10) % 0x100,
        bit_range(word, 4, 16) == word / 0x10,
{
    lemma_nibble_powers();
    assert(bit_range(word, 0, 16) == (word as nat / 0x1) % 0x10000);
    assert(bit_range(word, 12, 16) == (word as nat / 0x1000) % 0x10);
    assert(bit_range(word, 4, 16) == (word as nat / 0x10) % 0x1000);
}

/// The bit ranges that the instruction layouts write, in plain arithmetic.
pub proof fn lemma_with_bit_ranges(word: u16, value: u16)
    ensures
        with_bit_range(word, 0, 16, value) == value,
        with_bit_range(word, 12, 16, value) == word % 0x1000 + (value % 0x10) * 0x1000,
        with_bit_range(word, 8, 12, value) == word - ((word / 0x100) % 0x10) * 0x100 + (value
            % 0x10) * 0x100,
        with_bit_range(word, 4, 8, value) == word - ((word / 0x10) % 0x10) * 0x10 + (value % 0x10)
            * 0x10,
        with_bit_range(word, 0, 4, value) == word - word % 0x10 + value % 0x10,
        with_bit_range(word, 0, 8, value) == word - word % 0x100 + value % 0x100,
        with_bit_range(word, 0, 12, value) == word - word % 0x1000 + value % 0x1000,
        with_bit_range(word, 4, 16, value) == word % 0x10 + (value % 0x1000) * 0x10,
{
    lemma_nibble_powers();
    lemma_bit_ranges(word);
}

/// Four nibbles written from the top down into an empty word lie side by side.
proof fn lemma_pack_nibbles(o: u16, x: u16, y: u16, k: u16, w1: u16, w2: u16, w3: u16, w4: u16)
    by (bit_vector)
    requires
        w1 == (o % 0x10) * 0x1000,
        w2 == w1 - ((w1 / 0x100) % 0x10) * 0x100 + (x % 0x10) * 0x100,
        w3 == w2 - ((w2 / 0x10) % 0x10) * 0x10 + (y % 0x10) * 0x10,
        w4 == w3 - w3 % 0x10 + k % 0x10,
    ensures
        w4 == (o % 0x10) * 0x1000 + (x % 0x10) * 0x100 + (y % 0x10) * 0x10 + k % 0x10,
{
}

/// Two nibbles and a byte written from the top down into an empty word lie side by side.
proof fn lemma_pack_byte(o: u16, x: u16, kk: u16, w1: u16, w2: u16, w3: u16)
    by (bit_vector)
    requires
        w1 == (o % 0x10) * 0x1000,
        w2 == w1 - ((w1 / 0x100) % 0x10) * 0x100 + (x % 0x10) * 0x100,
        w3 == w2 - w2 % 0x100 + kk % 0x100,
    ensures
        w3 == (o % 0x10) * 0x1000 + (x % 0x10) * 0x100 + kk % 0x100,
{
}

/// A nibble and a 12-bit field written from the top down into an empty word lie side by side.
proof fn lemma_pack_address(o: u16, kkk: u16, w1: u16, w2: u16)
    by (bit_vector)
    requires
        w1 == (o % 0x10) * 0x1000,
        w2 == w1 - w1 % 0x1000 + kkk % 0x1000,
    ensures
        w2 == (o % 0x10) * 0x1000 + kkk % 0x1000,
{
}

/// A 12-bit field and a nibble written from the top down into an empty word lie side by side.
proof fn lemma_pack_literal(ooo: u16, k: u16, w1: u16, w2: u16)
    by (bit_vector)
    requires
        w1 == (ooo % 0x1000) * 0x10,
        w2 == w1 - w1 % 0x10 + k % 0x10,
    ensures
        w2 == (ooo % 0x1000) * 0x10 + k % 0x10,
{
}

/// Reads a bit range of a word with bitvec: the word is viewed as a slice of
/// bits, least significant first (`AsBits::bits::<Lsb0>`), the slice is cut to
/// `lo..hi`, and `BitField::load` returns those bits as the low bits of the
/// result, zero above them. `load` panics on an empty range and the cut panics
/// on a range that leaves the word, hence the precondition.
#[verifier::external_body]
fn load_bits(word: u16, lo: usize, hi: usize) -> (value: u16)
    requires
        lo < hi <= 16,
    ensures
        value == bit_range(word, lo as nat, hi as nat),
{
    word.bits::<Lsb0>()[lo..hi].load::<u16>()
}

/// Writes a bit range of a word with bitvec: the word is viewed as a mutable
/// slice of bits, least significant first (`AsBits::bits_mut::<Lsb0>`), the
/// slice is cut to `lo..hi`, and `BitField::store` writes the low `hi - lo`
/// bits of `value` there; the bits outside the range keep their value. The
/// same inputs panic as for a load.
#[verifier::external_body]
fn store_bits(word: &mut u16, lo: usize, hi: usize, value: u16)
    requires
        lo < hi <= 16,
    ensures
        *final(word) == with_bit_range(*old(word), lo as nat, hi as nat, value),
{
    word.bits_mut::<Lsb0>()[lo..hi].store::<u16>(value)
}

/// One instruction word. The wrapped number is the word as the machine reads
/// it: its high byte is the byte at the lower memory address.
#[derive(Copy, Clone, Debug, PartialEq, Eq, Structural, PartialOrd, Ord, Hash)]
pub struct OpCode(pub u16);

impl Default for OpCode {
    fn default() -> (r: Self)
        ensures
            r.0 == 0,
    {
        OpCode(0)
    }
}

impl OpCode {
    pub fn new(opcode: u16) -> (r: Self)
        ensures
            r.0 == opcode,
    {
        OpCode(opcode)
    }

    /// The bits `lo..hi` of the word.
    pub fn load(&self, lo: usize, hi: usize) -> (value: u16)
        requires
            lo < hi <= 16,
        ensures
            value == bit_range(self.0, lo as nat, hi as nat),
    {
        load_bits(self.0, lo, hi)
    }

    /// Replaces the bits `lo..hi` of the word by the low bits of `value`.
    pub fn store(&mut self, lo: usize, hi: usize, value: u16)
        requires
            lo < hi <= 16,
        ensures
            final(self).0 == with_bit_range(old(self).0, lo as nat, hi as nat, value),
    {
        store_bits(&mut self.0, lo, hi, value)
    }

    /// A word given whole.
    pub fn oooo(oooo: u16) -> (r: Self)
        ensures
            r.0 == oooo,
    {
        let mut opcode = Self::default();
        proof {
            lemma_with_bit_ranges(opcode.0, oooo);
        }
        opcode.store(0, 16, oooo);
        opcode
    }

    /// A 12-bit prefix and a 4-bit literal.
    pub fn oook(ooo: u16, k: u8) -> (r: Self)
        ensures
            r.0 == (ooo % 0x1000) * 0x10 + k % 0x10,
    {
        let mut opcode = Self::default();
        proof {
            lemma_with_bit_ranges(opcode.0, ooo);
        }
        opcode.store(4, 16, ooo);
        let ghost w1: u16 = opcode.0;
        proof {
            lemma_with_bit_ranges(opcode.0, k as u16);
        }
        opcode.store(0, 4, k as u16);
        proof {
            lemma_pack_literal(ooo, k as u16, w1, opcode.0);
        }
        opcode
    }

    /// A family nibble, a register and an 8-bit sub-opcode.
    pub fn oxoo(o: u8, x: u8, oo: u8) -> (r: Self)
        ensures
            r.0 == (o % 0x10) * 0x1000 + (x % 0x10) * 0x100 + oo,
    {
        let mut opcode = Self::default();
        proof {
            lemma_with_bit_ranges(opcode.0, o as u16);
        }
        opcode.store(12, 16, o as u16);
        let ghost w1: u16 = opcode.0;
        proof {
            lemma_with_bit_ranges(opcode.0, x as u16);
        }
        opcode.store(8, 12, x as u16);
        let ghost w2: u16 = opcode.0;
        proof {
            lemma_with_bit_ranges(opcode.0, oo as u16);
        }
        opcode.store(0, 8, oo as u16);
        proof {
            lemma_pack_byte(o as u16, x as u16, oo as u16, w1, w2, opcode.0);
        }
        opcode
    }

    /// A family nibble, two registers and a 4-bit sub-opcode.
    pub fn oxyo(om: u8, x: u8, y: u8, ol: u8) -> (r: Self)
        ensures
            r.0 == (om % 0x10) * 0x1000 + (x % 0x10) * 0x100 + (y % 0x10) * 0x10 + ol % 0x10,
    {
        let mut opcode = Self::default();
        proof {
            lemma_with_bit_ranges(opcode.0, om as u16);
        }
        opcode.store(12, 16, om as u16);
        let ghost w1: u16 = opcode.0;
        proof {
            lemma_with_bit_ranges(opcode.0, x as u16);
        }
        opcode.store(8, 12, x as u16);
        let ghost w2: u16 = opcode.0;
        proof {
            lemma_with_bit_ranges(opcode.0, y as u16);
        }
        opcode.store(4, 8, y as u16);
        let ghost w3: u16 = opcode.0;
        proof {
            lemma_with_bit_ranges(opcode.0, ol as u16);
        }
        opcode.store(0, 4, ol as u16);
        proof {
            lemma_pack_nibbles(om as u16, x as u16, y as u16, ol as u16, w1, w2, w3, opcode.0);
        }
        opcode
    }

    /// A family nibble and a 12-bit address.
    pub fn okkk(o: u8, kkk: u16) -> (r: Self)
        ensures
            r.0 == (o % 0x10) * 0x1000 + kkk % 0x1000,
    {
        let mut opcode = Self::default();
        proof {
            lemma_with_bit_ranges(opcode.0, o as u16);
        }
        opcode.store(12, 16, o as u16);
        let ghost w1: u16 = opcode.0;
        proof {
            lemma_with_bit_ranges(opcode.0, kkk);
        }
        opcode.store(0, 12, kkk);
        proof {
            lemma_pack_address(o as u16, kkk, w1, opcode.0);
        }
        opcode
    }

    /// A family nibble, a register and an 8-bit immediate.
    pub fn oxkk(o: u8, x: u8, kk: u8) -> (r: Self)
        ensures
            r.0 == (o % 0x10) * 0x1000 + (x % 0x10) * 0x100 + kk,
    {
        let mut opcode = Self::default();
        proof {
            lemma_with_bit_ranges(opcode.0, o as u16);
        }
        opcode.store(12, 16, o as u16);
        let ghost w1: u16 = opcode.0;
        proof {
            lemma_with_bit_ranges(opcode.0, x as u16);
        }
        opcode.store(8, 12, x as u16);
        let ghost w2: u16 = opcode.0;
        proof {
            lemma_with_bit_ranges(opcode.0, kk as u16);
        }
        opcode.store(0, 8, kk as u16);
        proof {
            lemma_pack_byte(o as u16, x as u16, kk as u16, w1, w2, opcode.0);
        }
        opcode
    }

    /// A family nibble, two registers and a 4-bit literal.
    pub fn oxyk(o: u8, x: u8, y: u8, k: u8) -> (r: Self)
        ensures
            r.0 == (o % 0x10) * 0x1000 + (x % 0x10) * 0x100 + (y % 0x10) * 0x10 + k % 0x10,
    {
        let mut opcode = Self::default();
        proof {
            lemma_with_bit_ranges(opcode.0, o as u16);
        }
        opcode.store(12, 16, o as u16);
        let ghost w1: u16 = opcode.0;
        proof {
            lemma_with_bit_ranges(opcode.0, x as u16);
        }
        opcode.store(8, 12, x as u16);
        let ghost w2: u16 = opcode.0;
        proof {
            lemma_with_bit_ranges(opcode.0, y as u16);
        }
        opcode.store(4, 8, y as u16);
        let ghost w3: u16 = opcode.0;
        proof {
            lemma_with_bit_ranges(opcode.0, k as u16);
        }
        opcode.store(0, 4, k as u16);
        proof {
            lemma_pack_nibbles(o as u16, x as u16, y as u16, k as u16, w1, w2, w3, opcode.0);
        }
        opcode
    }
}

impl From<Instruction> for OpCode {
    fn from(i: Instruction) -> (r: Self) {
        match i {
            Instruction::ScrollDown(k) => OpCode::oook(0x00C, k),
            Instruction::ScrollRight => OpCode::oooo(0x00FB),
            Instruction::ScrollLeft => OpCode::oooo(0x00FC),
            Instruction::Exit => OpCode::oooo(0x00FD),
            Instruction::LowRes => OpCode::oooo(0x00FE),
            Instruction::HighRes => OpCode::oooo(0x00FF),
            Instruction::ClearScreen => OpCode::oooo(0x00E0),
            Instruction::Return => OpCode::oooo(0x00EE),
            Instruction::Jump(addr) => OpCode::okkk(0x1, addr),
            Instruction::Call(addr) => OpCode::okkk(0x2, addr),
            Instruction::SkipEqualImmediate(vx, byte) => OpCode::oxkk(0x3, vx, byte),
            Instruction::SkipNotEqualImmediate(vx, byte) => OpCode::oxkk(0x4, vx, byte),
            Instruction::SkipEqual(vx, vy) => OpCode::oxyo(0x5, vx, vy, 0x0),
            Instruction::LoadImmediate(vx, byte) => OpCode::oxkk(0x6, vx, byte),
            Instruction::AddImmediate(vx, byte) => OpCode::oxkk(0x7, vx, byte),
            Instruction::Load(vx, vy) => OpCode::oxyo(0x8, vx, vy, 0x0),
            Instruction::Or(vx, vy) => OpCode::oxyo(0x8, vx, vy, 0x1),
            Instruction::And(vx, vy) => OpCode::oxyo(0x8, vx, vy, 0x2),
            Instruction::Xor(vx, vy) => OpCode::oxyo(0x8, vx, vy, 0x3),
            Instruction::Add(vx, vy) => OpCode::oxyo(0x8, vx, vy, 0x4),
            Instruction::Sub(vx, vy) => OpCode::oxyo(0x8, vx, vy, 0x5),
            Instruction::ShiftRight(vx, vy) => OpCode::oxyo(0x8, vx, vy, 0x6),
            Instruction::SubNumeric(vx, vy) => OpCode::oxyo(0x8, vx, vy, 0x7),
            Instruction::ShiftLeft(vx, vy) => OpCode::oxyo(0x8, vx, vy, 0xE),
            Instruction::SkipNotEqual(vx, vy) => OpCode::oxyo(0x9, vx, vy, 0x0),
            Instruction::LoadI(addr) => OpCode::okkk(0xA, addr),
            Instruction::JumpImmediate(addr) => OpCode::okkk(0xB, addr),
            Instruction::Random(vx, byte) => OpCode::oxkk(0xC, vx, byte),
            Instruction::Draw(vx, vy, nibble) => OpCode::oxyk(0xD, vx, vy, nibble),
            Instruction::SkipOnKey(vx) => OpCode::oxoo(0xE, vx, 0x9E),
            Instruction::SkipNotOnKey(vx) => OpCode::oxoo(0xE, vx, 0xA1),
            Instruction::LoadDTIntoV(vx) => OpCode::oxoo(0xF, vx, 0x07),
            Instruction::LoadKey(vx) => OpCode::oxoo(0xF, vx, 0x0A),
            Instruction::LoadVIntoDT(vx) => OpCode::oxoo(0xF, vx, 0x15),
            Instruction::LoadVIntoST(vx) => OpCode::oxoo(0xF, vx, 0x18),
            Instruction::AddI(vx) => OpCode::oxoo(0xF, vx, 0x1E),
            Instruction::LoadSpriteIntoI(vx) => OpCode::oxoo(0xF, vx, 0x29),
            Instruction::LoadBCDIntoI(vx) => OpCode::oxoo(0xF, vx, 0x33),
            Instruction::LoadVIntoMem(vx) => OpCode::oxoo(0xF, vx, 0x55),
            Instruction::LoadMemIntoV(vx) => OpCode::oxoo(0xF, vx, 0x65),
        }
    }
}

impl FromSpecImpl<Instruction> for OpCode {
    open spec fn obeys_from_spec() -> bool {
        true
    }

    open spec fn from_spec(i: Instruction) -> Self {
        OpCode(encoding(i) as u16)
    }
}

} // verus!
