//! The execution engine: the fetch-decode-execute cycle.
//!
//! The engine owns the registers and the store. The display and the keypad
//! belong to the front end, which hands them in with every step, together
//! with a random byte for the one instruction that wants it. The engine does
//! no waiting and keeps no clock: the caller steps it, ticks its timers sixty
//! times a second and tells it when a key goes down.

use crate::display::{Display, DisplayView, SPRITE_ROWS};
use crate::error::EngineError;
use crate::font::{glyph_address, FONT, FONT_START, GLYPH_SIZE};
use crate::instructions::{decoded, lemma_canonical_fixed, Instruction};
use crate::keypad::{key_down, Keypad, KEY_COUNT};
use crate::memory::{overwritten, zeroed, Memory, MemoryError, MEMORY_SIZE};
use crate::opcode::OpCode;
use crate::register::{Register, RegisterView, FLAG_REGISTER, STACK_DEPTH};
use vstd::prelude::*;

verus! {

/// What the engine does with the next step.
#[derive(Copy, Clone, PartialEq, Eq, Structural, Debug)]
pub enum EngineState {
    /// It runs the instruction at the program counter.
    Ready,
    /// It waits for a key, which goes to this register.
    AwaitingKey(u8),
    /// It has stopped, at the program's request or on an error.
    Halted,
}

/// What a step did that the front end may want to act on.
#[derive(Copy, Clone, PartialEq, Eq, Structural, Debug)]
pub enum Effect {
    /// Nothing to act on.
    Nothing,
    /// The display was cleared.
    DisplayCleared,
    /// A sprite was drawn.
    SpriteDrawn,
    /// The display was scrolled.
    DisplayScrolled,
    /// The resolution was set.
    ModeChanged,
    /// The engine now waits for a key.
    KeyAwaited,
    /// The program asked to stop.
    ExitRequested,
}

/// The engine as plain values.
pub struct Machine {
    pub regs: RegisterView,
    pub mem: Seq<u8>,
    pub state: EngineState,
}

/// What a step leaves behind and reports.
pub struct Outcome {
    pub machine: Machine,
    pub display: DisplayView,
    pub result: Result<Effect, EngineError>,
}

impl Machine {
    pub open spec fn wf(self) -> bool {
        self.regs.wf() && self.mem.len() == MEMORY_SIZE
    }

    /// The machine after a reset: registers zero, the store zero but for the glyphs.
    pub open spec fn reset() -> Machine {
        Machine {
            regs: RegisterView::reset(),
            mem: overwritten(zeroed(), FONT_START as int, FONT@),
            state: EngineState::Ready,
        }
    }

    pub open spec fn with_regs(self, regs: RegisterView) -> Machine {
        Machine { regs, ..self }
    }

    pub open spec fn with_mem(self, mem: Seq<u8>) -> Machine {
        Machine { mem, ..self }
    }

    pub open spec fn with_state(self, state: EngineState) -> Machine {
        Machine { state, ..self }
    }

    /// The instruction went through: the machine and the display are as
    /// given.
    pub open spec fn done(self, display: DisplayView, effect: Effect) -> Outcome {
        Outcome { machine: self, display, result: Ok(effect) }
    }

    /// The instruction failed: the machine halts as it stands, and the
    /// display stays as it is.
    pub open spec fn failed(self, display: DisplayView, error: EngineError) -> Outcome {
        Outcome { machine: self.with_state(EngineState::Halted), display, result: Err(error) }
    }

    /// The error of an access that starts inside the store and leaves it.
    pub open spec fn overrun() -> EngineError {
        EngineError::Memory(MemoryError::OutOfBoundsAccess(MEMORY_SIZE))
    }

    /// What writing `bytes` at the address register does: they are in the
    /// store if they fit between there and its end, else the machine fails.
    pub open spec fn stored(self, display: DisplayView, bytes: Seq<u8>) -> Outcome {
        if self.regs.i + bytes.len() <= MEMORY_SIZE {
            self.with_mem(overwritten(self.mem, self.regs.i as int, bytes)).done(
                display,
                Effect::Nothing,
            )
        } else {
            self.failed(display, Self::overrun())
        }
    }

    /// What drawing does: the sprite of `nibble` bytes at the address
    /// register, or of 32 bytes for the literal zero in high resolution, is
    /// drawn from (`Vx`, `Vy`), and `VF` says whether a lit pixel went dark.
    /// A sprite that leaves the store is an error.
    pub open spec fn drawn(self, display: DisplayView, vx: u8, vy: u8, nibble: u8) -> Outcome {
        let wide = nibble == 0 && display.high_res;
        let len = sprite_len(nibble, display.high_res);
        if self.regs.i + len <= MEMORY_SIZE {
            let sprite = self.mem.subrange(self.regs.i as int, self.regs.i + len);
            let ox = display.wrap_x(self.regs.reg(vx) as int);
            let oy = display.wrap_y(self.regs.reg(vy) as int);
            self.with_regs(self.regs.with_flag(display.collides(ox, oy, sprite, wide))).done(
                display.drawn(ox, oy, sprite, wide),
                Effect::SpriteDrawn,
            )
        } else {
            self.failed(display, Self::overrun())
        }
    }

    /// What executing `instruction` does to a machine that is ready. Operands
    /// count as far as their fields in the instruction word go.
    #[verifier::opaque]
    pub open spec fn run(
        self,
        display: DisplayView,
        keys: Seq<bool>,
        random: u8,
        instruction: Instruction,
    ) -> Outcome {
        let r = self.regs;
        match instruction.canonical() {
            Instruction::ScrollDown(k) => self.done(
                display.scrolled_down(k as int),
                Effect::DisplayScrolled,
            ),
            Instruction::ScrollRight => self.done(
                display.scrolled_right(),
                Effect::DisplayScrolled,
            ),
            Instruction::ScrollLeft => self.done(display.scrolled_left(), Effect::DisplayScrolled),
            Instruction::Exit => self.with_state(EngineState::Halted).done(
                display,
                Effect::ExitRequested,
            ),
            Instruction::LowRes => self.done(DisplayView::blank(false), Effect::ModeChanged),
            Instruction::HighRes => self.done(DisplayView::blank(true), Effect::ModeChanged),
            Instruction::ClearScreen => self.done(
                DisplayView::blank(display.high_res),
                Effect::DisplayCleared,
            ),
            Instruction::Return => if r.stack.len() > 0 {
                self.with_regs(r.returned()).done(display, Effect::Nothing)
            } else {
                self.failed(display, EngineError::StackUnderflow)
            },
            Instruction::Jump(addr) => self.with_regs(r.with_pc(addr as int)).done(
                display,
                Effect::Nothing,
            ),
            Instruction::Call(addr) => if r.stack.len() < STACK_DEPTH {
                self.with_regs(r.called(addr)).done(display, Effect::Nothing)
            } else {
                self.failed(display, EngineError::StackOverflow)
            },
            Instruction::SkipEqualImmediate(vx, byte) => self.with_regs(
                r.skipped_if(r.reg(vx) == byte),
            ).done(display, Effect::Nothing),
            Instruction::SkipNotEqualImmediate(vx, byte) => self.with_regs(
                r.skipped_if(r.reg(vx) != byte),
            ).done(display, Effect::Nothing),
            Instruction::SkipEqual(vx, vy) => self.with_regs(
                r.skipped_if(r.reg(vx) == r.reg(vy)),
            ).done(display, Effect::Nothing),
            Instruction::LoadImmediate(vx, byte) => self.with_regs(r.with_reg(vx, byte)).done(
                display,
                Effect::Nothing,
            ),
            Instruction::AddImmediate(vx, byte) => self.with_regs(
                r.with_reg(vx, ((r.reg(vx) + byte) % 0x100) as u8),
            ).done(display, Effect::Nothing),
            Instruction::Load(vx, vy) => self.with_regs(r.with_reg(vx, r.reg(vy))).done(
                display,
                Effect::Nothing,
            ),
            Instruction::Or(vx, vy) => self.with_regs(r.with_reg(vx, r.reg(vx) | r.reg(vy))).done(
                display,
                Effect::Nothing,
            ),
            Instruction::And(vx, vy) => self.with_regs(
                r.with_reg(vx, r.reg(vx) & r.reg(vy)),
            ).done(display, Effect::Nothing),
            Instruction::Xor(vx, vy) => self.with_regs(
                r.with_reg(vx, r.reg(vx) ^ r.reg(vy)),
            ).done(display, Effect::Nothing),
            Instruction::Add(vx, vy) => self.with_regs(
                r.with_reg(vx, ((r.reg(vx) + r.reg(vy)) % 0x100) as u8).with_flag(
                    r.reg(vx) + r.reg(vy) > 0xFF,
                ),
            ).done(display, Effect::Nothing),
            Instruction::Sub(vx, vy) => self.with_regs(
                r.with_reg(vx, ((r.reg(vx) - r.reg(vy)) % 0x100) as u8).with_flag(
                    r.reg(vx) >= r.reg(vy),
                ),
            ).done(display, Effect::Nothing),
            Instruction::ShiftRight(vx, _) => self.with_regs(
                r.with_reg(vx, r.reg(vx) / 2).with_flag(r.reg(vx) % 2 == 1),
            ).done(display, Effect::Nothing),
            Instruction::SubNumeric(vx, vy) => self.with_regs(
                r.with_reg(vx, ((r.reg(vy) - r.reg(vx)) % 0x100) as u8).with_flag(
                    r.reg(vy) >= r.reg(vx),
                ),
            ).done(display, Effect::Nothing),
            Instruction::ShiftLeft(vx, _) => self.with_regs(
                r.with_reg(vx, ((r.reg(vx) * 2) % 0x100) as u8).with_flag(r.reg(vx) >= 0x80),
            ).done(display, Effect::Nothing),
            Instruction::SkipNotEqual(vx, vy) => self.with_regs(
                r.skipped_if(r.reg(vx) != r.reg(vy)),
            ).done(display, Effect::Nothing),
            Instruction::LoadI(addr) => self.with_regs(r.with_i(addr as int)).done(
                display,
                Effect::Nothing,
            ),
            Instruction::JumpImmediate(addr) => self.with_regs(r.with_pc(addr + r.reg(0))).done(
                display,
                Effect::Nothing,
            ),
            Instruction::Random(vx, byte) => self.with_regs(r.with_reg(vx, random & byte)).done(
                display,
                Effect::Nothing,
            ),
            Instruction::Draw(vx, vy, nibble) => self.drawn(display, vx, vy, nibble),
            Instruction::SkipOnKey(vx) => self.with_regs(
                r.skipped_if(key_down(keys, r.reg(vx))),
            ).done(display, Effect::Nothing),
            Instruction::SkipNotOnKey(vx) => self.with_regs(
                r.skipped_if(!key_down(keys, r.reg(vx))),
            ).done(display, Effect::Nothing),
            Instruction::LoadDTIntoV(vx) => self.with_regs(r.with_reg(vx, r.dt)).done(
                display,
                Effect::Nothing,
            ),
            Instruction::LoadKey(vx) => self.with_state(EngineState::AwaitingKey(vx)).done(
                display,
                Effect::KeyAwaited,
            ),
            Instruction::LoadVIntoDT(vx) => self.with_regs(r.with_dt(r.reg(vx))).done(
                display,
                Effect::Nothing,
            ),
            Instruction::LoadVIntoST(vx) => self.with_regs(r.with_st(r.reg(vx))).done(
                display,
                Effect::Nothing,
            ),
            Instruction::AddI(vx) => self.with_regs(r.with_i(r.i + r.reg(vx))).done(
                display,
                Effect::Nothing,
            ),
            Instruction::LoadSpriteIntoI(vx) => self.with_regs(
                r.with_i(glyph_address(r.reg(vx))),
            ).done(display, Effect::Nothing),
            Instruction::LoadBCDIntoI(vx) => self.stored(display, decimal_digits(r.reg(vx))),
            Instruction::LoadVIntoMem(vx) => self.stored(display, r.v.subrange(0, vx + 1)),
            Instruction::LoadMemIntoV(vx) => if r.i + vx + 1 <= MEMORY_SIZE {
                self.with_regs(r.filled(self.mem.subrange(r.i as int, r.i + vx + 1))).done(
                    display,
                    Effect::Nothing,
                )
            } else {
                self.failed(display, Self::overrun())
            },
        }
    }

    /// What executing `instruction` does. Only a machine that is ready
    /// executes; one that waits or has halted stays as it is.
    pub open spec fn executed(
        self,
        display: DisplayView,
        keys: Seq<bool>,
        random: u8,
        instruction: Instruction,
    ) -> Outcome {
        if self.state == EngineState::Ready {
            self.run(display, keys, random, instruction)
        } else {
            self.done(display, Effect::Nothing)
        }
    }

    /// The instruction word at the program counter, high byte first.
    pub open spec fn word_at_pc(self) -> u16 {
        (self.mem[self.regs.pc as int] * 0x100 + self.mem[self.regs.pc + 1]) as u16
    }

    /// What a step does. A machine that is ready fetches the word at the
    /// program counter, moves the program counter past it, decodes the word
    /// and executes the instruction. One that waits or has halted stays as
    /// it is.
    pub open spec fn stepped(self, display: DisplayView, keys: Seq<bool>, random: u8) -> Outcome {
        if self.state != EngineState::Ready {
            self.done(display, Effect::Nothing)
        } else if self.regs.pc + 1 >= MEMORY_SIZE {
            self.failed(display, Self::overrun())
        } else {
            let fetched = self.with_regs(self.regs.with_pc(self.regs.pc + 2));
            match decoded(OpCode(self.word_at_pc())) {
                Ok(instruction) => fetched.run(display, keys, random, instruction),
                Err(error) => fetched.failed(display, EngineError::Decode(error)),
            }
        }
    }

    /// What a key press does: it ends a wait and leaves the key's number in
    /// the register that waits for it. Without a wait, or without such a
    /// key, nothing happens.
    pub open spec fn key_pressed(self, key: u8) -> Machine {
        match self.state {
            EngineState::AwaitingKey(vx) if key < KEY_COUNT => Machine {
                regs: self.regs.with_reg(vx, key),
                state: EngineState::Ready,
                ..self
            },
            _ => self,
        }
    }
}

/// The number of bytes in the sprite that a draw instruction with literal
/// `nibble` reads: as many as the literal says, and 32 for the literal zero
/// in high resolution.
pub open spec fn sprite_len(nibble: u8, high_res: bool) -> int {
    if nibble != 0 {
        nibble as int
    } else if high_res {
        2 * SPRITE_ROWS as int
    } else {
        0
    }
}

/// The hundreds, tens and ones of `value`.
pub open spec fn decimal_digits(value: u8) -> Seq<u8> {
    seq![value / 100, (value / 10) % 10, value % 10]
}

/// The engine: the registers, the store and what the next step does.
pub struct ExecutionEngine {
    registers: Register,
    memory: Memory,
    state: EngineState,
}

impl View for ExecutionEngine {
    type V = Machine;

    closed spec fn view(&self) -> Machine {
        Machine { regs: self.registers@, mem: self.memory@, state: self.state }
    }
}

impl ExecutionEngine {
    /// The engine after a reset: ready, all registers zero, the store empty
    /// but for the glyphs of the sixteen digits.
    pub fn new() -> (r: Self)
        ensures
            r@ == Machine::reset(),
            r@.wf(),
    {
        let mut memory = Memory::new();
        let _ = memory.load(FONT_START, FONT.as_slice());
        ExecutionEngine { registers: Register::new(), memory, state: EngineState::Ready }
    }

    /// The registers and the store are well formed whenever the engine is
    /// at rest. Nothing happens at run time.
    fn well_formed(&self)
        ensures
            self@.wf(),
    {
        let _ = self.registers.sp();
        let _ = self.memory.size();
    }

    /// The registers.
    pub fn registers(&self) -> (r: &Register)
        ensures
            r@ == self@.regs,
            self@.wf(),
    {
        self.well_formed();
        &self.registers
    }

    /// The store.
    pub fn memory(&self) -> (r: &Memory)
        ensures
            r@ == self@.mem,
            self@.wf(),
    {
        self.well_formed();
        &self.memory
    }

    /// What the next step does.
    pub fn state(&self) -> (r: EngineState)
        ensures
            r == self@.state,
    {
        self.state
    }

    /// Whether the buzzer sounds: it does while the sound timer runs.
    pub fn sound_on(&self) -> (on: bool)
        ensures
            on == (self@.regs.st > 0),
    {
        self.registers.st() > 0
    }

    /// Loads a program at `origin` and points the program counter at it. A
    /// program that does not fit between `origin` and the end of the store
    /// is an error and changes nothing.
    pub fn load_program(&mut self, origin: u16, bytes: &[u8]) -> (r: Result<(), MemoryError>)
        ensures
            final(self)@.wf(),
            origin + bytes@.len() <= MEMORY_SIZE ==> r == Ok::<(), MemoryError>(()) && final(self)@
                == old(self)@.with_mem(
                overwritten(old(self)@.mem, origin as int, bytes@),
            ).with_regs(old(self)@.regs.with_pc(origin as int)),
            origin + bytes@.len() > MEMORY_SIZE ==> r == Err::<(), MemoryError>(
                MemoryError::ProgramTooLarge(bytes@.len() as usize),
            ) && final(self)@ == old(self)@,
    {
        self.well_formed();
        match self.memory.load(origin as usize, bytes) {
            Ok(()) => {
                self.registers.set_pc(origin);
                Ok(())
            },
            Err(error) => Err(error),
        }
    }

    /// One tick of the 60 Hz clock: each timer that runs loses one. The
    /// clock ticks whatever the engine does.
    pub fn tick_timers(&mut self)
        ensures
            final(self)@ == old(self)@.with_regs(old(self)@.regs.ticked()),
            final(self)@.wf(),
    {
        self.well_formed();
        self.registers.tick_timers();
    }

    /// Tells the engine that `key` went down. An engine that waits for a key
    /// stores the key's number and is ready again.
    pub fn key_pressed(&mut self, key: u8)
        ensures
            final(self)@ == old(self)@.key_pressed(key),
            final(self)@.wf(),
    {
        self.well_formed();
        match self.state {
            EngineState::AwaitingKey(vx) => {
                if (key as usize) < KEY_COUNT {
                    self.registers.set_v(vx, key);
                    self.state = EngineState::Ready;
                }
            },
            _ => {},
        }
    }

    /// Halts on `error`.
    fn halt(&mut self, error: EngineError) -> (r: Result<Effect, EngineError>)
        ensures
            final(self)@ == old(self)@.with_state(EngineState::Halted),
            r == Err::<Effect, EngineError>(error),
    {
        self.state = EngineState::Halted;
        Err(error)
    }

    /// One step of the fetch-decode-execute cycle. On any error the engine
    /// halts and the error is returned.
    pub fn step(&mut self, display: &mut Display, keypad: &Keypad, random: u8) -> (r: Result<
        Effect,
        EngineError,
    >)
        ensures
            ({
                let o = old(self)@.stepped(old(display)@, keypad@, random);
                &&& final(self)@ == o.machine
                &&& final(display)@ == o.display
                &&& r == o.result
            }),
            final(self)@.wf(),
    {
        self.well_formed();
        let pc: u16 = self.registers.pc();
        match self.state {
            EngineState::Ready => {},
            _ => {
                return Ok(Effect::Nothing);
            },
        }
        let word: u16 = match self.memory.read_word(pc as usize) {
            Ok(word) => word,
            Err(error) => {
                return self.halt(EngineError::Memory(error));
            },
        };
        self.registers.set_pc(pc + 2);
        match Instruction::decode(OpCode::new(word)) {
            Ok(instruction) => self.run(instruction, display, keypad, random),
            Err(error) => self.halt(EngineError::Decode(error)),
        }
    }

    /// Executes one instruction, if the engine is ready. On any error the
    /// engine halts and the error is returned.
    pub fn execute(
        &mut self,
        instruction: Instruction,
        display: &mut Display,
        keypad: &Keypad,
        random: u8,
    ) -> (r: Result<Effect, EngineError>)
        ensures
            ({
                let o = old(self)@.executed(old(display)@, keypad@, random, instruction);
                &&& final(self)@ == o.machine
                &&& final(display)@ == o.display
                &&& r == o.result
            }),
            final(self)@.wf(),
    {
        self.well_formed();
        match self.state {
            EngineState::Ready => self.run(instruction, display, keypad, random),
            _ => Ok(Effect::Nothing),
        }
    }

    /// Executes one instruction on an engine that is ready.
    fn run(
        &mut self,
        instruction: Instruction,
        display: &mut Display,
        keypad: &Keypad,
        random: u8,
    ) -> (r: Result<Effect, EngineError>)
        requires
            old(self)@.state == EngineState::Ready,
        ensures
            ({
                let o = old(self)@.run(old(display)@, keypad@, random, instruction);
                &&& final(self)@ == o.machine
                &&& final(display)@ == o.display
                &&& r == o.result
            }),
            final(self)@.wf(),
    {
        self.well_formed();
        let instruction: Instruction = instruction.to_canonical();
        proof {
            lemma_canonical_fixed(instruction);
            reveal(Machine::run);
        }
        match instruction {
            Instruction::ScrollDown(_)
            | Instruction::ScrollRight
            | Instruction::ScrollLeft
            | Instruction::LowRes
            | Instruction::HighRes
            | Instruction::ClearScreen => self.run_display(instruction, display, keypad, random),
            Instruction::Exit
            | Instruction::Return
            | Instruction::Jump(_)
            | Instruction::Call(_)
            | Instruction::JumpImmediate(_)
            | Instruction::LoadKey(_) => self.run_flow(instruction, display, keypad, random),
            Instruction::SkipEqualImmediate(_, _)
            | Instruction::SkipNotEqualImmediate(_, _)
            | Instruction::SkipEqual(_, _)
            | Instruction::SkipNotEqual(_, _)
            | Instruction::SkipOnKey(_)
            | Instruction::SkipNotOnKey(_) => self.run_skip(instruction, display, keypad, random),
            Instruction::LoadImmediate(_, _)
            | Instruction::AddImmediate(_, _)
            | Instruction::Load(_, _)
            | Instruction::Or(_, _)
            | Instruction::And(_, _)
            | Instruction::Xor(_, _)
            | Instruction::Add(_, _)
            | Instruction::Sub(_, _)
            | Instruction::ShiftRight(_, _)
            | Instruction::SubNumeric(_, _)
            | Instruction::ShiftLeft(_, _)
            | Instruction::Random(_, _) => {
                self.run_arithmetic(instruction, display, keypad, random)
            },
            Instruction::LoadI(_)
            | Instruction::LoadDTIntoV(_)
            | Instruction::LoadVIntoDT(_)
            | Instruction::LoadVIntoST(_)
            | Instruction::AddI(_)
            | Instruction::LoadSpriteIntoI(_) => {
                self.run_special(instruction, display, keypad, random)
            },
            Instruction::Draw(_, _, _)
            | Instruction::LoadBCDIntoI(_)
            | Instruction::LoadVIntoMem(_)
            | Instruction::LoadMemIntoV(_) => self.run_memory(instruction, display, keypad, random),
        }
    }

    /// Executes an instruction that works on the display alone.
    fn run_display(
        &mut self,
        instruction: Instruction,
        display: &mut Display,
        keypad: &Keypad,
        random: u8,
    ) -> (r: Result<Effect, EngineError>)
        requires
            old(self)@.state == EngineState::Ready,
            instruction.operands_fit(),
            instruction is ScrollDown
                || instruction is ScrollRight
                || instruction is ScrollLeft
                || instruction is LowRes
                || instruction is HighRes
                || instruction is ClearScreen,
        ensures
            ({
                let o = old(self)@.run(old(display)@, keypad@, random, instruction);
                &&& final(self)@ == o.machine
                &&& final(display)@ == o.display
                &&& r == o.result
            }),
            final(self)@.wf(),
    {
        self.well_formed();
        proof {
            lemma_canonical_fixed(instruction);
            reveal(Machine::run);
        }
        match instruction {
            Instruction::ScrollDown(k) => {
                display.scroll_down(k);
                Ok(Effect::DisplayScrolled)
            },
            Instruction::ScrollRight => {
                display.scroll_right();
                Ok(Effect::DisplayScrolled)
            },
            Instruction::ScrollLeft => {
                display.scroll_left();
                Ok(Effect::DisplayScrolled)
            },
            Instruction::LowRes => {
                display.set_high_res(false);
                Ok(Effect::ModeChanged)
            },
            Instruction::HighRes => {
                display.set_high_res(true);
                Ok(Effect::ModeChanged)
            },
            Instruction::ClearScreen => {
                display.clear();
                Ok(Effect::DisplayCleared)
            },
            // The precondition leaves no other instruction.
            _ => Ok(Effect::Nothing),
        }
    }

    /// Executes an instruction that moves the program counter or changes the state.
    fn run_flow(
        &mut self,
        instruction: Instruction,
        display: &mut Display,
        keypad: &Keypad,
        random: u8,
    ) -> (r: Result<Effect, EngineError>)
        requires
            old(self)@.state == EngineState::Ready,
            instruction.operands_fit(),
            instruction is Exit
                || instruction is Return
                || instruction is Jump
                || instruction is Call
                || instruction is JumpImmediate
                || instruction is LoadKey,
        ensures
            ({
                let o = old(self)@.run(old(display)@, keypad@, random, instruction);
                &&& final(self)@ == o.machine
                &&& final(display)@ == o.display
                &&& r == o.result
            }),
            final(self)@.wf(),
    {
        self.well_formed();
        proof {
            lemma_canonical_fixed(instruction);
            reveal(Machine::run);
        }
        match instruction {
            Instruction::Exit => {
                self.state = EngineState::Halted;
                Ok(Effect::ExitRequested)
            },
            Instruction::Return => match self.registers.ret() {
                Ok(()) => Ok(Effect::Nothing),
                Err(error) => self.halt(error),
            },
            Instruction::Jump(addr) => {
                self.registers.set_pc(addr);
                Ok(Effect::Nothing)
            },
            Instruction::Call(addr) => match self.registers.call(addr) {
                Ok(()) => Ok(Effect::Nothing),
                Err(error) => self.halt(error),
            },
            Instruction::JumpImmediate(addr) => {
                let target: u16 = addr + self.registers.v(0) as u16;
                self.registers.set_pc(target);
                Ok(Effect::Nothing)
            },
            Instruction::LoadKey(vx) => {
                self.state = EngineState::AwaitingKey(vx);
                Ok(Effect::KeyAwaited)
            },
            // The precondition leaves no other instruction.
            _ => Ok(Effect::Nothing),
        }
    }

    /// Executes a conditional skip.
    fn run_skip(
        &mut self,
        instruction: Instruction,
        display: &mut Display,
        keypad: &Keypad,
        random: u8,
    ) -> (r: Result<Effect, EngineError>)
        requires
            old(self)@.state == EngineState::Ready,
            instruction.operands_fit(),
            instruction is SkipEqualImmediate
                || instruction is SkipNotEqualImmediate
                || instruction is SkipEqual
                || instruction is SkipNotEqual
                || instruction is SkipOnKey
                || instruction is SkipNotOnKey,
        ensures
            ({
                let o = old(self)@.run(old(display)@, keypad@, random, instruction);
                &&& final(self)@ == o.machine
                &&& final(display)@ == o.display
                &&& r == o.result
            }),
            final(self)@.wf(),
    {
        self.well_formed();
        proof {
            lemma_canonical_fixed(instruction);
            reveal(Machine::run);
        }
        match instruction {
            Instruction::SkipEqualImmediate(vx, byte) => {
                let skip: bool = self.registers.v(vx) == byte;
                self.skip_if(skip)
            },
            Instruction::SkipNotEqualImmediate(vx, byte) => {
                let skip: bool = self.registers.v(vx) != byte;
                self.skip_if(skip)
            },
            Instruction::SkipEqual(vx, vy) => {
                let skip: bool = self.registers.v(vx) == self.registers.v(vy);
                self.skip_if(skip)
            },
            Instruction::SkipNotEqual(vx, vy) => {
                let skip: bool = self.registers.v(vx) != self.registers.v(vy);
                self.skip_if(skip)
            },
            Instruction::SkipOnKey(vx) => {
                let skip: bool = keypad.is_down(self.registers.v(vx));
                self.skip_if(skip)
            },
            Instruction::SkipNotOnKey(vx) => {
                let skip: bool = !keypad.is_down(self.registers.v(vx));
                self.skip_if(skip)
            },
            // The precondition leaves no other instruction.
            _ => Ok(Effect::Nothing),
        }
    }

    /// Executes an instruction that computes a general register.
    fn run_arithmetic(
        &mut self,
        instruction: Instruction,
        display: &mut Display,
        keypad: &Keypad,
        random: u8,
    ) -> (r: Result<Effect, EngineError>)
        requires
            old(self)@.state == EngineState::Ready,
            instruction.operands_fit(),
            instruction is LoadImmediate
                || instruction is AddImmediate
                || instruction is Load
                || instruction is Or
                || instruction is And
                || instruction is Xor
                || instruction is Add
                || instruction is Sub
                || instruction is ShiftRight
                || instruction is SubNumeric
                || instruction is ShiftLeft
                || instruction is Random,
        ensures
            ({
                let o = old(self)@.run(old(display)@, keypad@, random, instruction);
                &&& final(self)@ == o.machine
                &&& final(display)@ == o.display
                &&& r == o.result
            }),
            final(self)@.wf(),
    {
        self.well_formed();
        proof {
            lemma_canonical_fixed(instruction);
            reveal(Machine::run);
        }
        match instruction {
            Instruction::LoadImmediate(vx, byte) => {
                self.registers.set_v(vx, byte);
                Ok(Effect::Nothing)
            },
            Instruction::AddImmediate(vx, byte) => {
                let sum: u16 = self.registers.v(vx) as u16 + byte as u16;
                self.registers.set_v(vx, (sum % 0x100) as u8);
                Ok(Effect::Nothing)
            },
            Instruction::Load(vx, vy) => {
                let value: u8 = self.registers.v(vy);
                self.registers.set_v(vx, value);
                Ok(Effect::Nothing)
            },
            Instruction::Or(vx, vy) => {
                let value: u8 = self.registers.v(vx) | self.registers.v(vy);
                self.registers.set_v(vx, value);
                Ok(Effect::Nothing)
            },
            Instruction::And(vx, vy) => {
                let value: u8 = self.registers.v(vx) & self.registers.v(vy);
                self.registers.set_v(vx, value);
                Ok(Effect::Nothing)
            },
            Instruction::Xor(vx, vy) => {
                let value: u8 = self.registers.v(vx) ^ self.registers.v(vy);
                self.registers.set_v(vx, value);
                Ok(Effect::Nothing)
            },
            Instruction::Add(vx, vy) => {
                let sum: u16 = self.registers.v(vx) as u16 + self.registers.v(vy) as u16;
                self.registers.set_v(vx, (sum % 0x100) as u8);
                self.set_flag(sum > 0xFF);
                Ok(Effect::Nothing)
            },
            Instruction::Sub(vx, vy) => {
                let a: u8 = self.registers.v(vx);
                let b: u8 = self.registers.v(vy);
                self.registers.set_v(vx, difference(a, b));
                self.set_flag(a >= b);
                Ok(Effect::Nothing)
            },
            Instruction::ShiftRight(vx, _) => {
                let a: u8 = self.registers.v(vx);
                self.registers.set_v(vx, a / 2);
                self.set_flag(a % 2 == 1);
                Ok(Effect::Nothing)
            },
            Instruction::SubNumeric(vx, vy) => {
                let a: u8 = self.registers.v(vx);
                let b: u8 = self.registers.v(vy);
                self.registers.set_v(vx, difference(b, a));
                self.set_flag(b >= a);
                Ok(Effect::Nothing)
            },
            Instruction::ShiftLeft(vx, _) => {
                let a: u8 = self.registers.v(vx);
                self.registers.set_v(vx, ((a as u16 * 2) % 0x100) as u8);
                self.set_flag(a >= 0x80);
                Ok(Effect::Nothing)
            },
            Instruction::Random(vx, byte) => {
                self.registers.set_v(vx, random & byte);
                Ok(Effect::Nothing)
            },
            // The precondition leaves no other instruction.
            _ => Ok(Effect::Nothing),
        }
    }

    /// Executes an instruction on the timers or the address register.
    fn run_special(
        &mut self,
        instruction: Instruction,
        display: &mut Display,
        keypad: &Keypad,
        random: u8,
    ) -> (r: Result<Effect, EngineError>)
        requires
            old(self)@.state == EngineState::Ready,
            instruction.operands_fit(),
            instruction is LoadI
                || instruction is LoadDTIntoV
                || instruction is LoadVIntoDT
                || instruction is LoadVIntoST
                || instruction is AddI
                || instruction is LoadSpriteIntoI,
        ensures
            ({
                let o = old(self)@.run(old(display)@, keypad@, random, instruction);
                &&& final(self)@ == o.machine
                &&& final(display)@ == o.display
                &&& r == o.result
            }),
            final(self)@.wf(),
    {
        self.well_formed();
        proof {
            lemma_canonical_fixed(instruction);
            reveal(Machine::run);
        }
        match instruction {
            Instruction::LoadI(addr) => {
                self.registers.set_i(addr);
                Ok(Effect::Nothing)
            },
            Instruction::LoadDTIntoV(vx) => {
                let value: u8 = self.registers.dt();
                self.registers.set_v(vx, value);
                Ok(Effect::Nothing)
            },
            Instruction::LoadVIntoDT(vx) => {
                let value: u8 = self.registers.v(vx);
                self.registers.set_dt(value);
                Ok(Effect::Nothing)
            },
            Instruction::LoadVIntoST(vx) => {
                let value: u8 = self.registers.v(vx);
                self.registers.set_st(value);
                Ok(Effect::Nothing)
            },
            Instruction::AddI(vx) => {
                let target: u16 = self.registers.i() + self.registers.v(vx) as u16;
                self.registers.set_i(target);
                Ok(Effect::Nothing)
            },
            Instruction::LoadSpriteIntoI(vx) => {
                let digit: u16 = (self.registers.v(vx) % 16) as u16;
                self.registers.set_i(FONT_START as u16 + GLYPH_SIZE as u16 * digit);
                Ok(Effect::Nothing)
            },
            // The precondition leaves no other instruction.
            _ => Ok(Effect::Nothing),
        }
    }

    /// Executes an instruction that reads or writes the store.
    fn run_memory(
        &mut self,
        instruction: Instruction,
        display: &mut Display,
        keypad: &Keypad,
        random: u8,
    ) -> (r: Result<Effect, EngineError>)
        requires
            old(self)@.state == EngineState::Ready,
            instruction.operands_fit(),
            instruction is Draw
                || instruction is LoadBCDIntoI
                || instruction is LoadVIntoMem
                || instruction is LoadMemIntoV,
        ensures
            ({
                let o = old(self)@.run(old(display)@, keypad@, random, instruction);
                &&& final(self)@ == o.machine
                &&& final(display)@ == o.display
                &&& r == o.result
            }),
            final(self)@.wf(),
    {
        self.well_formed();
        proof {
            lemma_canonical_fixed(instruction);
            reveal(Machine::run);
        }
        match instruction {
            Instruction::Draw(vx, vy, nibble) => self.draw(display, vx, vy, nibble),
            Instruction::LoadBCDIntoI(vx) => {
                let digits: Vec<u8> = decimal(self.registers.v(vx));
                self.store(digits)
            },
            Instruction::LoadVIntoMem(vx) => {
                let values: Vec<u8> = self.registers.upto(vx);
                self.store(values)
            },
            Instruction::LoadMemIntoV(vx) => {
                let i: usize = self.registers.i() as usize;
                match self.memory.read_range(i, vx as usize + 1) {
                    Ok(values) => {
                        self.registers.fill(values.as_slice());
                        Ok(Effect::Nothing)
                    },
                    Err(error) => self.halt(EngineError::Memory(error)),
                }
            },
            // The precondition leaves no other instruction.
            _ => Ok(Effect::Nothing),
        }
    }

    /// Skips the next instruction if `condition` holds.
    fn skip_if(&mut self, condition: bool) -> (r: Result<Effect, EngineError>)
        ensures
            final(self)@ == old(self)@.with_regs(old(self)@.regs.skipped_if(condition)),
            final(self)@.regs.wf(),
            r == Ok::<Effect, EngineError>(Effect::Nothing),
    {
        let pc: u16 = self.registers.pc();
        if condition {
            self.registers.set_pc(pc + 2);
        }
        Ok(Effect::Nothing)
    }

    /// Sets the flag register to 1 or 0.
    fn set_flag(&mut self, flag: bool)
        ensures
            final(self)@ == old(self)@.with_regs(old(self)@.regs.with_flag(flag)),
            final(self)@.regs.wf(),
    {
        self.registers.set_v(
            FLAG_REGISTER,
            if flag {
                1
            } else {
                0
            },
        );
    }

    /// Writes `bytes` into the store from the address register on, or halts
    /// if they do not fit.
    fn store(&mut self, bytes: Vec<u8>) -> (r: Result<Effect, EngineError>)
        ensures
            final(self)@.wf(),
            old(self)@.regs.i + bytes@.len() <= MEMORY_SIZE ==> r == Ok::<Effect, EngineError>(
                Effect::Nothing,
            ) && final(self)@ == old(self)@.with_mem(
                overwritten(old(self)@.mem, old(self)@.regs.i as int, bytes@),
            ),
            old(self)@.regs.i + bytes@.len() > MEMORY_SIZE ==> r == Err::<Effect, EngineError>(
                Machine::overrun(),
            ) && final(self)@ == old(self)@.with_state(EngineState::Halted),
    {
        self.well_formed();
        let i: usize = self.registers.i() as usize;
        if bytes.len() > MEMORY_SIZE - i {
            return self.halt(EngineError::Memory(MemoryError::OutOfBoundsAccess(MEMORY_SIZE)));
        }
        match self.memory.load(i, bytes.as_slice()) {
            Ok(()) => Ok(Effect::Nothing),
            Err(error) => self.halt(EngineError::Memory(error)),
        }
    }

    /// Draws the sprite at the address register.
    fn draw(&mut self, display: &mut Display, vx: u8, vy: u8, nibble: u8) -> (r: Result<
        Effect,
        EngineError,
    >)
        requires
            nibble < 16,
        ensures
            ({
                let o = old(self)@.drawn(old(display)@, vx, vy, nibble);
                &&& final(self)@ == o.machine
                &&& final(display)@ == o.display
                &&& r == o.result
            }),
            final(self)@.wf(),
    {
        self.well_formed();
        let high_res: bool = display.is_high_res();
        let wide: bool = nibble == 0 && high_res;
        let len: usize = if nibble != 0 {
            nibble as usize
        } else if high_res {
            2 * SPRITE_ROWS
        } else {
            0
        };
        let i: usize = self.registers.i() as usize;
        match self.memory.read_range(i, len) {
            Ok(sprite) => {
                let x: u8 = self.registers.v(vx);
                let y: u8 = self.registers.v(vy);
                let collision: bool = display.draw_sprite(x, y, sprite.as_slice(), wide);
                self.set_flag(collision);
                Ok(Effect::SpriteDrawn)
            },
            Err(error) => self.halt(EngineError::Memory(error)),
        }
    }
}

/// The hundreds, tens and ones of `value`.
fn decimal(value: u8) -> (digits: Vec<u8>)
    ensures
        digits@ == decimal_digits(value),
{
    let mut digits: Vec<u8> = Vec::new();
    digits.push(value / 100);
    digits.push((value / 10) % 10);
    digits.push(value % 10);
    assert(digits@ =~= decimal_digits(value));
    digits
}

/// `a - b`, wrapped round into a byte.
fn difference(a: u8, b: u8) -> (d: u8)
    ensures
        d == ((a - b) % 0x100) as u8,
{
    if a >= b {
        a - b
    } else {
        ((a as u16 + 0x100 - b as u16) % 0x100) as u8
    }
}

impl Default for ExecutionEngine {
    fn default() -> (r: Self)
        ensures
            r@ == Machine::reset(),
            r@.wf(),
    {
        Self::new()
    }
}

} // verus!
