//! What holds of every execution: the flags of addition and subtraction, the
//! length of a skip, and the balance of calls and returns.

use crate::display::DisplayView;
use crate::engine::{Effect, EngineState, Machine};
use crate::error::EngineError;
use crate::instructions::{
    decoded, lemma_canonical_fixed, lemma_encode_decode, DecodeError, Instruction,
};
use crate::keypad::key_down;
use crate::memory::MEMORY_SIZE;
use crate::opcode::OpCode;
use crate::register::{
    lemma_call_then_return, lemma_stack_balance, RegisterView, FLAG_REGISTER, STACK_DEPTH,
};
use vstd::prelude::*;

verus! {

/// Addition wraps and carries: executing `Add(vx, vy)` with a destination
/// other than `VF` leaves the sum of the two registers modulo 256 in the
/// destination and sets `VF` to 1 if the sum is above 255, else to 0. No
/// other register changes, nor does the store or the display.
pub proof fn lemma_add_carries(
    m: Machine,
    display: DisplayView,
    keys: Seq<bool>,
    random: u8,
    vx: u8,
    vy: u8,
)
    requires
        m.wf(),
        m.state == EngineState::Ready,
        vx % 16 != FLAG_REGISTER,
    ensures
        ({
            let sum = m.regs.reg(vx) + m.regs.reg(vy);
            let o = m.executed(display, keys, random, Instruction::Add(vx, vy));
            &&& o.result == Ok::<Effect, EngineError>(Effect::Nothing)
            &&& o.machine.regs.reg(vx) == sum % 256
            &&& o.machine.regs.reg(FLAG_REGISTER) == if sum > 255 {
                1int
            } else {
                0int
            }
            &&& forall|k: u8| k % 16 != vx % 16 && k % 16 != FLAG_REGISTER ==> o.machine.regs.reg(k)
                == m.regs.reg(k)
            &&& o.machine == m.with_regs(RegisterView { v: o.machine.regs.v, ..m.regs })
            &&& o.display == display
        }),
{
    reveal(Machine::run);
    let x = (vx % 16) as u8;
    let y = (vy % 16) as u8;
    let r = m.regs;
    assert(Instruction::Add(vx, vy).canonical() == Instruction::Add(x, y));
    let o = m.executed(display, keys, random, Instruction::Add(vx, vy));
    let sum = ((r.reg(x) + r.reg(y)) % 0x100) as u8;
    assert(o.machine.regs == r.with_reg(x, sum).with_flag(r.reg(x) + r.reg(y) > 0xFF));
    assert(r.reg(x) == r.reg(vx) && r.reg(y) == r.reg(vy));
}

/// Subtraction wraps and borrows: executing `Sub(vx, vy)` with a destination
/// other than `VF` leaves `Vx - Vy` modulo 256 in the destination and sets
/// `VF` to 1 if `Vx` was at least `Vy`, else to 0. No other register
/// changes, nor does the store or the display.
pub proof fn lemma_sub_borrows(
    m: Machine,
    display: DisplayView,
    keys: Seq<bool>,
    random: u8,
    vx: u8,
    vy: u8,
)
    requires
        m.wf(),
        m.state == EngineState::Ready,
        vx % 16 != FLAG_REGISTER,
    ensures
        ({
            let o = m.executed(display, keys, random, Instruction::Sub(vx, vy));
            &&& o.result == Ok::<Effect, EngineError>(Effect::Nothing)
            &&& o.machine.regs.reg(vx) == (m.regs.reg(vx) - m.regs.reg(vy)) % 256
            &&& o.machine.regs.reg(FLAG_REGISTER) == 1 <==> m.regs.reg(vx) >= m.regs.reg(vy)
            &&& o.machine.regs.reg(FLAG_REGISTER) == 0 <==> m.regs.reg(vx) < m.regs.reg(vy)
            &&& forall|k: u8| k % 16 != vx % 16 && k % 16 != FLAG_REGISTER ==> o.machine.regs.reg(k)
                == m.regs.reg(k)
            &&& o.machine == m.with_regs(RegisterView { v: o.machine.regs.v, ..m.regs })
            &&& o.display == display
        }),
{
    reveal(Machine::run);
    let x = (vx % 16) as u8;
    let y = (vy % 16) as u8;
    let r = m.regs;
    assert(Instruction::Sub(vx, vy).canonical() == Instruction::Sub(x, y));
    let o = m.executed(display, keys, random, Instruction::Sub(vx, vy));
    let difference = ((r.reg(x) - r.reg(y)) % 0x100) as u8;
    assert(o.machine.regs == r.with_reg(x, difference).with_flag(r.reg(x) >= r.reg(y)));
    assert(r.reg(x) == r.reg(vx) && r.reg(y) == r.reg(vy));
}

/// The condition of a skip instruction, and nothing for any other
/// instruction.
pub open spec fn skip_condition(
    instruction: Instruction,
    regs: RegisterView,
    keys: Seq<bool>,
) -> Option<bool> {
    match instruction {
        Instruction::SkipEqualImmediate(vx, byte) => Some(regs.reg(vx) == byte),
        Instruction::SkipNotEqualImmediate(vx, byte) => Some(regs.reg(vx) != byte),
        Instruction::SkipEqual(vx, vy) => Some(regs.reg(vx) == regs.reg(vy)),
        Instruction::SkipNotEqual(vx, vy) => Some(regs.reg(vx) != regs.reg(vy)),
        Instruction::SkipOnKey(vx) => Some(key_down(keys, regs.reg(vx))),
        Instruction::SkipNotOnKey(vx) => Some(!key_down(keys, regs.reg(vx))),
        _ => None,
    }
}

/// Executing a skip instruction moves the program counter on by 2 if the
/// condition holds, and changes nothing else.
pub proof fn lemma_skip_executes(
    m: Machine,
    display: DisplayView,
    keys: Seq<bool>,
    random: u8,
    instruction: Instruction,
)
    requires
        instruction.operands_fit(),
        skip_condition(instruction, m.regs, keys) is Some,
    ensures
        m.run(display, keys, random, instruction) == m.with_regs(
            m.regs.skipped_if(skip_condition(instruction, m.regs, keys)->Some_0),
        ).done(display, Effect::Nothing),
{
    reveal(Machine::run);
    lemma_canonical_fixed(instruction);
}

/// A skip is four bytes long or two: a step that finds a skip instruction at
/// the program counter moves the program counter on by 4 if the condition
/// holds and by 2 if it does not, and changes nothing else. The program
/// counter has 12 bits, so at the very end of the store it comes round to
/// the start.
pub proof fn lemma_skip_length(m: Machine, display: DisplayView, keys: Seq<bool>, random: u8)
    requires
        m.wf(),
        m.state == EngineState::Ready,
        m.regs.pc + 1 < MEMORY_SIZE,
        decoded(OpCode(m.word_at_pc())) is Ok,
        skip_condition(decoded(OpCode(m.word_at_pc()))->Ok_0, m.regs, keys) is Some,
    ensures
        ({
            let instruction = decoded(OpCode(m.word_at_pc()))->Ok_0;
            let holds = skip_condition(instruction, m.regs, keys)->Some_0;
            let length = if holds {
                4int
            } else {
                2int
            };
            let o = m.stepped(display, keys, random);
            &&& o.result == Ok::<Effect, EngineError>(Effect::Nothing)
            &&& o.machine == m.with_regs(m.regs.with_pc(m.regs.pc + length))
            &&& o.machine.regs.pc == (m.regs.pc + length) % 0x1000
            &&& m.regs.pc + length < 0x1000 ==> o.machine.regs.pc == m.regs.pc + length
            &&& o.display == display
        }),
{
    let instruction = decoded(OpCode(m.word_at_pc()))->Ok_0;
    let holds = skip_condition(instruction, m.regs, keys)->Some_0;
    lemma_encode_decode(m.word_at_pc());
    let fetched = m.with_regs(m.regs.with_pc(m.regs.pc + 2));
    let o = fetched.run(display, keys, random, instruction);
    assert(m.stepped(display, keys, random) == o);
    assert(fetched.regs.v == m.regs.v);
    assert(skip_condition(instruction, fetched.regs, keys) == Some(holds));
    lemma_skip_executes(fetched, display, keys, random, instruction);
    assert(((m.regs.pc + 2) % 0x1000 + 2) % 0x1000 == (m.regs.pc + 4) % 0x1000);
}

/// A call and the return that follows it bring the machine back: executing
/// `Call` on a machine with room on its stack and then `Return` leaves every
/// register as it was, the program counter and the stack pointer with them.
pub proof fn lemma_call_return_restores(
    m: Machine,
    display: DisplayView,
    keys: Seq<bool>,
    random: u8,
    target: u16,
)
    requires
        m.wf(),
        m.state == EngineState::Ready,
        m.regs.stack.len() < STACK_DEPTH,
    ensures
        ({
            let called = m.executed(display, keys, random, Instruction::Call(target));
            let returned = called.machine.executed(display, keys, random, Instruction::Return);
            &&& called.result == Ok::<Effect, EngineError>(Effect::Nothing)
            &&& called.machine == m.with_regs(m.regs.called(target))
            &&& called.machine.regs.pc == target % 0x1000
            &&& called.machine.regs.stack.len() == m.regs.stack.len() + 1
            &&& returned.result == Ok::<Effect, EngineError>(Effect::Nothing)
            &&& returned.machine == m
        }),
{
    reveal(Machine::run);
    lemma_call_then_return(m.regs, target);
    assert(m.regs.called((target % 0x1000) as u16) == m.regs.called(target));
}

/// The machine after a `Call` to each of `targets` in turn.
pub open spec fn after_calls(
    m: Machine,
    display: DisplayView,
    keys: Seq<bool>,
    random: u8,
    targets: Seq<u16>,
) -> Machine
    decreases targets.len(),
{
    if targets.len() == 0 {
        m
    } else {
        after_calls(m, display, keys, random, targets.drop_last()).executed(
            display,
            keys,
            random,
            Instruction::Call(targets.last()),
        ).machine
    }
}

/// The machine after `n` times `Return`.
pub open spec fn after_returns(
    m: Machine,
    display: DisplayView,
    keys: Seq<bool>,
    random: u8,
    n: nat,
) -> Machine
    decreases n,
{
    if n == 0 {
        m
    } else {
        after_returns(
            m.executed(display, keys, random, Instruction::Return).machine,
            display,
            keys,
            random,
            (n - 1) as nat,
        )
    }
}

/// Nested calls that the stack has room for only push return addresses and
/// move the program counter.
pub proof fn lemma_nested_calls(
    m: Machine,
    display: DisplayView,
    keys: Seq<bool>,
    random: u8,
    targets: Seq<u16>,
)
    requires
        m.wf(),
        m.state == EngineState::Ready,
        m.regs.stack.len() + targets.len() <= STACK_DEPTH,
    ensures
        after_calls(m, display, keys, random, targets) == m.with_regs(
            m.regs.after_calls(targets),
        ),
    decreases targets.len(),
{
    if targets.len() > 0 {
        let inner = after_calls(m, display, keys, random, targets.drop_last());
        lemma_nested_calls(m, display, keys, random, targets.drop_last());
        lemma_stack_balance(m.regs, targets.drop_last());
        lemma_call_return_restores(inner, display, keys, random, targets.last());
    } else {
        assert(m.with_regs(m.regs) == m);
    }
}

/// Returns that find a return address only pop the stack into the program
/// counter.
pub proof fn lemma_nested_returns(
    m: Machine,
    display: DisplayView,
    keys: Seq<bool>,
    random: u8,
    n: nat,
)
    requires
        m.wf(),
        m.state == EngineState::Ready,
        n <= m.regs.stack.len(),
    ensures
        after_returns(m, display, keys, random, n) == m.with_regs(m.regs.after_returns(n)),
    decreases n,
{
    if n > 0 {
        reveal(Machine::run);
        let next = m.executed(display, keys, random, Instruction::Return).machine;
        assert(next == m.with_regs(m.regs.returned()));
        lemma_nested_returns(next, display, keys, random, (n - 1) as nat);
    }
}

/// The stack balances: on a machine that is ready, any number of nested
/// calls that the stack has room for, followed by as many returns, leave the
/// program counter at its value before the first call and the stack pointer
/// at its depth before it; nothing else has changed either.
pub proof fn lemma_calls_and_returns_balance(
    m: Machine,
    display: DisplayView,
    keys: Seq<bool>,
    random: u8,
    targets: Seq<u16>,
)
    requires
        m.wf(),
        m.state == EngineState::Ready,
        m.regs.stack.len() + targets.len() <= STACK_DEPTH,
    ensures
        ({
            let deep = after_calls(m, display, keys, random, targets);
            let back = after_returns(deep, display, keys, random, targets.len());
            &&& deep.regs.stack.len() == m.regs.stack.len() + targets.len()
            &&& back.regs.pc == m.regs.pc
            &&& back.regs.stack.len() == m.regs.stack.len()
            &&& back == m
        }),
{
    let deep = after_calls(m, display, keys, random, targets);
    lemma_nested_calls(m, display, keys, random, targets);
    lemma_stack_balance(m.regs, targets);
    lemma_nested_returns(deep, display, keys, random, targets.len());
}

/// A call with a full stack fails and touches nothing: executing `Call`
/// with sixteen return addresses on the stack reports the overflow and
/// halts the machine, with every register, the stack and the store as they
/// were.
pub proof fn lemma_call_overflows(
    m: Machine,
    display: DisplayView,
    keys: Seq<bool>,
    random: u8,
    target: u16,
)
    requires
        m.wf(),
        m.state == EngineState::Ready,
        m.regs.stack.len() == STACK_DEPTH,
    ensures
        ({
            let o = m.executed(display, keys, random, Instruction::Call(target));
            &&& o.result == Err::<Effect, EngineError>(EngineError::StackOverflow)
            &&& o.machine == m.with_state(EngineState::Halted)
            &&& o.display == display
        }),
{
    reveal(Machine::run);
}

/// A return with an empty stack fails and touches nothing but the state.
pub proof fn lemma_return_underflows(
    m: Machine,
    display: DisplayView,
    keys: Seq<bool>,
    random: u8,
)
    requires
        m.wf(),
        m.state == EngineState::Ready,
        m.regs.stack.len() == 0,
    ensures
        ({
            let o = m.executed(display, keys, random, Instruction::Return);
            &&& o.result == Err::<Effect, EngineError>(EngineError::StackUnderflow)
            &&& o.machine == m.with_state(EngineState::Halted)
            &&& o.display == display
        }),
{
    reveal(Machine::run);
}

/// A word outside the instruction table stops the machine: a step that
/// finds such a word at the program counter reports the word and halts,
/// with the program counter past the word and everything else as it was.
pub proof fn lemma_unknown_word_halts(
    m: Machine,
    display: DisplayView,
    keys: Seq<bool>,
    random: u8,
)
    requires
        m.wf(),
        m.state == EngineState::Ready,
        m.regs.pc + 1 < MEMORY_SIZE,
        decoded(OpCode(m.word_at_pc())) is Err,
    ensures
        ({
            let o = m.stepped(display, keys, random);
            &&& o.result == Err::<Effect, EngineError>(
                EngineError::Decode(
                    DecodeError::UnsupportedOpcode(OpCode(m.word_at_pc())),
                ),
            )
            &&& o.machine == m.with_regs(m.regs.with_pc(m.regs.pc + 2)).with_state(
                EngineState::Halted,
            )
            &&& o.display == display
        }),
{
}

} // verus!
