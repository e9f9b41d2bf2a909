//! The machine's store: 4096 bytes, addressed from `0x000` to `0xFFF`.
//!
//! The first 512 bytes belong to the interpreter, which keeps the digit
//! glyphs there. Programs are loaded above them, by convention at
//! [`MEMORY_START`] (some old programs expect `0x600`).
//!
//! There are two ways in. [`Memory::read`], [`Memory::write`] and
//! [`Memory::load`] are the machine's own: they reach every byte of the
//! store. [`Memory::get`] and [`Memory::get_mut`] are for a program's data:
//! to them the interpreter's region is out of bounds as well.

use hexyl::{BorderStyle, Printer};
use vstd::prelude::*;

verus! {

/// The number of bytes in the store.
pub const MEMORY_SIZE: usize = 0x1000;

/// The first address above the interpreter's region.
pub const MEMORY_START: usize = 0x200;

#[derive(Copy, Clone, PartialEq, Eq, Structural, Debug)]
pub enum MemoryError {
    /// The address is not one that the access may touch.
    OutOfBoundsAccess(usize),
    /// A sequence of this many bytes does not fit between the origin given
    /// and the end of the store.
    ProgramTooLarge(usize),
}

pub struct Memory {
    memory: Vec<u8>,
}

impl View for Memory {
    type V = Seq<u8>;

    closed spec fn view(&self) -> Seq<u8> {
        self.memory@
    }
}

/// A store of zeroes.
pub open spec fn zeroed() -> Seq<u8> {
    Seq::new(MEMORY_SIZE as nat, |i: int| 0u8)
}

/// `store` with `bytes` written over it from `origin` on.
pub open spec fn overwritten(store: Seq<u8>, origin: int, bytes: Seq<u8>) -> Seq<u8> {
    Seq::new(
        store.len(),
        |i: int|
            if origin <= i < origin + bytes.len() {
                bytes[i - origin]
            } else {
                store[i]
            },
    )
}

/// The text that hexyl prints for `bytes`: a framed hex dump with offsets
/// from zero, in colour, runs of equal lines squeezed.
pub uninterp spec fn hex_dump(bytes: Seq<u8>) -> Seq<char>;

/// Formats bytes with hexyl: a `Printer` over a byte buffer, made with colour,
/// Unicode borders and squeezing switched on and the offset column starting at
/// zero, prints all of `bytes` (`Printer::print_all`); the buffer is returned
/// as text. What it prints depends on the bytes alone.
#[verifier::external_body]
fn print_hex(bytes: &Vec<u8>) -> (text: String)
    ensures
        text@ == hex_dump(bytes@),
{
    let mut buf: Vec<u8> = Vec::new();
    let mut printer = Printer::new(&mut buf, true, BorderStyle::Unicode, true);
    printer.display_offset(0);
    let _ = printer.print_all(&bytes[..], None);
    String::from_utf8_lossy(&buf).into_owned()
}

impl Memory {
    #[verifier::type_invariant]
    spec fn sized(self) -> bool {
        self.memory@.len() == MEMORY_SIZE
    }

    /// A store of zeroes.
    pub fn new() -> (r: Self)
        ensures
            r@ == zeroed(),
    {
        let r = Memory { memory: vec![0u8; MEMORY_SIZE] };
        assert(r.memory@ =~= zeroed());
        r
    }

    /// The number of bytes in the store, which never changes.
    pub fn size(&self) -> (n: usize)
        ensures
            n == MEMORY_SIZE,
            self@.len() == MEMORY_SIZE,
    {
        proof {
            use_type_invariant(self);
        }
        self.memory.len()
    }

    /// Accepts the addresses that a program's data may use: those from
    /// [`MEMORY_START`] to the end of the store.
    pub fn check_idx(idx: usize) -> (r: Result<usize, MemoryError>)
        ensures
            r == if MEMORY_START <= idx < MEMORY_SIZE {
                Ok::<usize, MemoryError>(idx)
            } else {
                Err::<usize, MemoryError>(MemoryError::OutOfBoundsAccess(idx))
            },
    {
        if idx < MEMORY_START || idx >= MEMORY_SIZE {
            Err(MemoryError::OutOfBoundsAccess(idx))
        } else {
            Ok(idx)
        }
    }

    /// The byte of a program's data at `idx`.
    pub fn get(&self, idx: usize) -> (r: Result<&u8, MemoryError>)
        ensures
            self@.len() == MEMORY_SIZE,
            r == if MEMORY_START <= idx < MEMORY_SIZE {
                Ok::<&u8, MemoryError>(&self@[idx as int])
            } else {
                Err::<&u8, MemoryError>(MemoryError::OutOfBoundsAccess(idx))
            },
    {
        proof {
            use_type_invariant(self);
        }
        match Self::check_idx(idx) {
            Ok(idx) => Ok(&self.memory[idx]),
            Err(e) => Err(e),
        }
    }

    /// The byte of a program's data at `idx`, to be changed in place. The
    /// store afterwards differs from the store before at `idx` alone, where
    /// it holds what the caller left there.
    pub fn get_mut(&mut self, idx: usize) -> (r: Result<&mut u8, MemoryError>)
        ensures
            match r {
                Ok(cell) => {
                    &&& MEMORY_START <= idx < MEMORY_SIZE
                    &&& *cell == old(self)@[idx as int]
                    &&& final(self)@ == old(self)@.update(idx as int, *final(cell))
                },
                Err(e) => {
                    &&& !(MEMORY_START <= idx < MEMORY_SIZE)
                    &&& e == MemoryError::OutOfBoundsAccess(idx)
                    &&& final(self)@ == old(self)@
                },
            },
    {
        proof {
            use_type_invariant(&*self);
        }
        match Self::check_idx(idx) {
            Ok(idx) => Ok(&mut self.memory[idx]),
            Err(e) => Err(e),
        }
    }

    /// The byte at `addr`, anywhere in the store.
    pub fn read(&self, addr: usize) -> (r: Result<u8, MemoryError>)
        ensures
            self@.len() == MEMORY_SIZE,
            r == if addr < MEMORY_SIZE {
                Ok::<u8, MemoryError>(self@[addr as int])
            } else {
                Err::<u8, MemoryError>(MemoryError::OutOfBoundsAccess(addr))
            },
    {
        proof {
            use_type_invariant(self);
        }
        if addr < MEMORY_SIZE {
            Ok(self.memory[addr])
        } else {
            Err(MemoryError::OutOfBoundsAccess(addr))
        }
    }

    /// Stores `value` at `addr`, anywhere in the store. An address outside
    /// the store is an error and changes nothing.
    pub fn write(&mut self, addr: usize, value: u8) -> (r: Result<(), MemoryError>)
        ensures
            final(self)@.len() == MEMORY_SIZE,
            addr < MEMORY_SIZE ==> r == Ok::<(), MemoryError>(()) && final(self)@ == old(
                self,
            )@.update(addr as int, value),
            addr >= MEMORY_SIZE ==> r == Err::<(), MemoryError>(
                MemoryError::OutOfBoundsAccess(addr),
            ) && final(self)@ == old(self)@,
    {
        proof {
            use_type_invariant(&*self);
        }
        if addr < MEMORY_SIZE {
            self.memory[addr] = value;
            Ok(())
        } else {
            Err(MemoryError::OutOfBoundsAccess(addr))
        }
    }

    /// The 16-bit word at `addr`: the byte at `addr` is its high byte, the
    /// next one its low byte. The error names the first address of the two
    /// that lies outside the store.
    pub fn read_word(&self, addr: usize) -> (r: Result<u16, MemoryError>)
        ensures
            self@.len() == MEMORY_SIZE,
            r == if addr + 1 < MEMORY_SIZE {
                Ok::<u16, MemoryError>(
                    (self@[addr as int] * 0x100 + self@[addr as int + 1]) as u16,
                )
            } else if addr < MEMORY_SIZE {
                Err::<u16, MemoryError>(MemoryError::OutOfBoundsAccess(MEMORY_SIZE))
            } else {
                Err::<u16, MemoryError>(MemoryError::OutOfBoundsAccess(addr))
            },
    {
        proof {
            use_type_invariant(self);
        }
        if addr >= MEMORY_SIZE {
            Err(MemoryError::OutOfBoundsAccess(addr))
        } else if addr + 1 >= MEMORY_SIZE {
            Err(MemoryError::OutOfBoundsAccess(MEMORY_SIZE))
        } else {
            let high: u16 = self.memory[addr] as u16;
            let low: u16 = self.memory[addr + 1] as u16;
            Ok(high * 0x100 + low)
        }
    }

    /// The `len` bytes from `addr` on. The error names the first address of
    /// the range that lies outside the store.
    pub fn read_range(&self, addr: usize, len: usize) -> (r: Result<Vec<u8>, MemoryError>)
        ensures
            self@.len() == MEMORY_SIZE,
            match r {
                Ok(bytes) => addr + len <= MEMORY_SIZE && bytes@ == self@.subrange(
                    addr as int,
                    addr + len,
                ),
                Err(e) => addr + len > MEMORY_SIZE && e == MemoryError::OutOfBoundsAccess(
                    if addr < MEMORY_SIZE {
                        MEMORY_SIZE
                    } else {
                        addr
                    },
                ),
            },
    {
        proof {
            use_type_invariant(self);
        }
        if addr > MEMORY_SIZE || len > MEMORY_SIZE - addr {
            let outside: usize = if addr < MEMORY_SIZE {
                MEMORY_SIZE
            } else {
                addr
            };
            return Err(MemoryError::OutOfBoundsAccess(outside));
        }
        let mut bytes: Vec<u8> = Vec::new();
        let mut n: usize = 0;
        while n < len
            invariant
                n <= len,
                addr + len <= MEMORY_SIZE,
                self.memory@.len() == MEMORY_SIZE,
                bytes@ == self.memory@.subrange(addr as int, addr + n),
            decreases len - n,
        {
            bytes.push(self.memory[addr + n]);
            n += 1;
            assert(bytes@ =~= self.memory@.subrange(addr as int, addr + n));
        }
        Ok(bytes)
    }

    /// Writes `bytes` into the store from `origin` on. A sequence that would
    /// run past the end of the store is an error and changes nothing.
    pub fn load(&mut self, origin: usize, bytes: &[u8]) -> (r: Result<(), MemoryError>)
        ensures
            final(self)@.len() == MEMORY_SIZE,
            origin + bytes@.len() <= MEMORY_SIZE ==> r == Ok::<(), MemoryError>(())
                && final(self)@ == overwritten(old(self)@, origin as int, bytes@),
            origin + bytes@.len() > MEMORY_SIZE ==> r == Err::<(), MemoryError>(
                MemoryError::ProgramTooLarge(bytes@.len() as usize),
            ) && final(self)@ == old(self)@,
    {
        proof {
            use_type_invariant(&*self);
        }
        let len: usize = bytes.len();
        if origin > MEMORY_SIZE || len > MEMORY_SIZE - origin {
            return Err(MemoryError::ProgramTooLarge(len));
        }
        let mut n: usize = 0;
        while n < len
            invariant
                n <= len,
                len == bytes@.len(),
                origin + len <= MEMORY_SIZE,
                self.memory@.len() == MEMORY_SIZE,
                self.memory@ == overwritten(
                    old(self).memory@,
                    origin as int,
                    bytes@.take(n as int),
                ),
            decreases len - n,
        {
            self.memory[origin + n] = bytes[n];
            n += 1;
            assert(self.memory@ =~= overwritten(
                old(self).memory@,
                origin as int,
                bytes@.take(n as int),
            ));
        }
        assert(bytes@.take(len as int) =~= bytes@);
        Ok(())
    }

    /// The store as a hex dump.
    pub fn to_string(&self) -> (text: String)
        ensures
            text@ == hex_dump(self@),
    {
        print_hex(&self.memory)
    }
}

impl Default for Memory {
    fn default() -> (r: Self)
        ensures
            r@ == zeroed(),
    {
        Self::new()
    }
}

/// The store that holds a program: zeroes, with as much of `program` as fits
/// written from [`MEMORY_START`] on.
pub open spec fn holding(program: Seq<u8>) -> Seq<u8> {
    overwritten(
        zeroed(),
        MEMORY_START as int,
        if program.len() <= MEMORY_SIZE - MEMORY_START {
            program
        } else {
            program.take(MEMORY_SIZE - MEMORY_START)
        },
    )
}

impl From<&[u8]> for Memory {
    /// A store with `buf` loaded at [`MEMORY_START`]. What does not fit
    /// between there and the end of the store is left out.
    fn from(buf: &[u8]) -> (r: Self)
        ensures
            r@ == holding(buf@),
    {
        let mut memory = Self::default();
        let writable: usize = MEMORY_SIZE - MEMORY_START;
        let fitting: &[u8] = if buf.len() <= writable {
            buf
        } else {
            vstd::slice::slice_subrange(buf, 0, writable)
        };
        let _ = memory.load(MEMORY_START, fitting);
        memory
    }
}

impl vstd::std_specs::convert::FromSpecImpl<&[u8]> for Memory {
    open spec fn obeys_from_spec() -> bool {
        false
    }

    open spec fn from_spec(buf: &[u8]) -> Self {
        arbitrary()
    }
}

} // verus!
