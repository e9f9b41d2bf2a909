//! The register bank of the processor.

use crate::error::EngineError;
use crate::memory::overwritten;
use vstd::prelude::*;

verus! {

/// The number of general registers, `V0` to `VF`.
pub const REGISTER_COUNT: usize = 16;

/// The number of return addresses that the call stack holds.
pub const STACK_DEPTH: usize = 16;

/// The register that the arithmetic and drawing instructions use as a flag.
pub const FLAG_REGISTER: u8 = 0xF;

/// The registers as plain values.
pub struct RegisterView {
    /// The sixteen general registers.
    pub v: Seq<u8>,
    /// The address register.
    pub i: u16,
    /// The delay timer.
    pub dt: u8,
    /// The sound timer.
    pub st: u8,
    /// The program counter.
    pub pc: u16,
    /// The return addresses, the oldest first. Its length is the stack pointer.
    pub stack: Seq<u16>,
}

impl RegisterView {
    /// Sixteen general registers, 12-bit addresses, at most sixteen return
    /// addresses.
    pub open spec fn wf(self) -> bool {
        &&& self.v.len() == REGISTER_COUNT
        &&& self.i < 0x1000
        &&& self.pc < 0x1000
        &&& self.stack.len() <= STACK_DEPTH
        &&& forall|k: int| 0 <= k < self.stack.len() ==> #[trigger] self.stack[k] < 0x1000
    }

    /// All registers zero and the stack empty.
    pub open spec fn reset() -> RegisterView {
        RegisterView {
            v: Seq::new(REGISTER_COUNT as nat, |k: int| 0u8),
            i: 0,
            dt: 0,
            st: 0,
            pc: 0,
            stack: Seq::empty(),
        }
    }

    /// The general register `x`; only the low four bits of `x` count.
    pub open spec fn reg(self, x: u8) -> u8 {
        self.v[x as int % 16]
    }

    pub open spec fn with_reg(self, x: u8, value: u8) -> RegisterView {
        RegisterView { v: self.v.update(x as int % 16, value), ..self }
    }

    pub open spec fn with_i(self, addr: int) -> RegisterView {
        RegisterView { i: (addr % 0x1000) as u16, ..self }
    }

    pub open spec fn with_dt(self, value: u8) -> RegisterView {
        RegisterView { dt: value, ..self }
    }

    pub open spec fn with_st(self, value: u8) -> RegisterView {
        RegisterView { st: value, ..self }
    }

    pub open spec fn with_pc(self, addr: int) -> RegisterView {
        RegisterView { pc: (addr % 0x1000) as u16, ..self }
    }

    /// The general registers from `V0` on set to `values`, as far as there
    /// are registers.
    pub open spec fn filled(self, values: Seq<u8>) -> RegisterView {
        RegisterView {
            v: overwritten(
                self.v,
                0,
                if values.len() <= REGISTER_COUNT {
                    values
                } else {
                    values.take(REGISTER_COUNT as int)
                },
            ),
            ..self
        }
    }

    /// The flag register set to 1 or 0.
    pub open spec fn with_flag(self, flag: bool) -> RegisterView {
        self.with_reg(
            FLAG_REGISTER,
            if flag {
                1
            } else {
                0
            },
        )
    }

    /// The next instruction skipped if `condition` holds.
    pub open spec fn skipped_if(self, condition: bool) -> RegisterView {
        if condition {
            self.with_pc(self.pc + 2)
        } else {
            self
        }
    }

    /// After a call: the program counter is on the stack and the machine is at `addr`.
    pub open spec fn called(self, addr: u16) -> RegisterView {
        RegisterView { pc: addr % 0x1000, stack: self.stack.push(self.pc), ..self }
    }

    /// After a return: the newest return address has left the stack for the
    /// program counter.
    pub open spec fn returned(self) -> RegisterView {
        RegisterView { pc: self.stack.last(), stack: self.stack.drop_last(), ..self }
    }

    /// After a call to each of `targets` in turn.
    pub open spec fn after_calls(self, targets: Seq<u16>) -> RegisterView
        decreases targets.len(),
    {
        if targets.len() == 0 {
            self
        } else {
            self.after_calls(targets.drop_last()).called(targets.last())
        }
    }

    /// After `n` returns.
    pub open spec fn after_returns(self, n: nat) -> RegisterView
        decreases n,
    {
        if n == 0 {
            self
        } else {
            self.returned().after_returns((n - 1) as nat)
        }
    }

    /// After one tick of the 60 Hz clock: each timer that runs has lost one.
    pub open spec fn ticked(self) -> RegisterView {
        RegisterView {
            dt: if self.dt > 0 {
                (self.dt - 1) as u8
            } else {
                0
            },
            st: if self.st > 0 {
                (self.st - 1) as u8
            } else {
                0
            },
            ..self
        }
    }
}

/// The register bank: sixteen general 8-bit registers `V0` to `VF`, the
/// address register `I`, the two timers, the program counter and the call
/// stack with its pointer.
///
/// `VF` doubles as the flag of the arithmetic and drawing instructions, so
/// programs keep no data in it. `I` and the program counter hold 12-bit
/// addresses: every write keeps the low 12 bits.
pub struct Register {
    v: [u8; 16],
    i: u16,
    dt: u8,
    st: u8,
    pc: u16,
    sp: u8,
    stack: [u16; 16],
}

impl View for Register {
    type V = RegisterView;

    closed spec fn view(&self) -> RegisterView {
        RegisterView {
            v: self.v@,
            i: self.i,
            dt: self.dt,
            st: self.st,
            pc: self.pc,
            stack: self.stack@.take(self.sp as int),
        }
    }
}

impl Register {
    #[verifier::type_invariant]
    spec fn valid(self) -> bool {
        &&& self.i < 0x1000
        &&& self.pc < 0x1000
        &&& self.sp <= STACK_DEPTH
        &&& forall|k: int| 0 <= k < self.sp ==> #[trigger] self.stack@[k] < 0x1000
    }

    /// The bank after a reset.
    pub fn new() -> (r: Self)
        ensures
            r@ == RegisterView::reset(),
            r@.wf(),
    {
        let r = Register { v: [0u8; 16], i: 0, dt: 0, st: 0, pc: 0, sp: 0, stack: [0u16; 16] };
        assert(r.v@ =~= RegisterView::reset().v);
        assert(r.stack@.take(0) =~= RegisterView::reset().stack);
        r
    }

    /// The general register `x`; only the low four bits of `x` count.
    pub fn v(&self, x: u8) -> (value: u8)
        ensures
            value == self@.reg(x),
            self@.wf(),
    {
        proof {
            use_type_invariant(self);
        }
        self.v[(x % 16) as usize]
    }

    /// Sets the general register `x`; only the low four bits of `x` count.
    pub fn set_v(&mut self, x: u8, value: u8)
        ensures
            final(self)@ == old(self)@.with_reg(x, value),
            final(self)@.wf(),
    {
        proof {
            use_type_invariant(&*self);
        }
        self.v[(x % 16) as usize] = value;
    }

    /// The general registers `V0` to `Vx`, in this order; only the low four
    /// bits of `x` count.
    pub fn upto(&self, x: u8) -> (values: Vec<u8>)
        ensures
            values@ == self@.v.subrange(0, x % 16 + 1),
            self@.wf(),
    {
        proof {
            use_type_invariant(self);
        }
        let last: usize = (x % 16) as usize;
        let mut values: Vec<u8> = Vec::new();
        let mut k: usize = 0;
        while k <= last
            invariant
                k <= last + 1,
                last < 16,
                values@ == self.v@.subrange(0, k as int),
            decreases last + 1 - k,
        {
            values.push(self.v[k]);
            k += 1;
            assert(values@ =~= self.v@.subrange(0, k as int));
        }
        values
    }

    /// Sets the general registers from `V0` on to `values`, one after the
    /// other. There are sixteen registers: what `values` holds beyond that
    /// is left out.
    pub fn fill(&mut self, values: &[u8])
        ensures
            final(self)@ == old(self)@.filled(values@),
            final(self)@.wf(),
    {
        proof {
            use_type_invariant(&*self);
        }
        let count: usize = if values.len() <= REGISTER_COUNT {
            values.len()
        } else {
            REGISTER_COUNT
        };
        let ghost taken = if values@.len() <= REGISTER_COUNT {
            values@
        } else {
            values@.take(REGISTER_COUNT as int)
        };
        assert(taken =~= values@.take(count as int));
        let mut k: usize = 0;
        assert(self.v@ =~= overwritten(old(self).v@, 0, taken.take(0)));
        while k < count
            invariant
                k <= count,
                count == taken.len(),
                count <= REGISTER_COUNT,
                count <= values@.len(),
                taken == values@.take(count as int),
                self.valid(),
                self.v@ == overwritten(old(self).v@, 0, taken.take(k as int)),
                self.i == old(self).i,
                self.dt == old(self).dt,
                self.st == old(self).st,
                self.pc == old(self).pc,
                self.sp == old(self).sp,
                self.stack == old(self).stack,
            decreases count - k,
        {
            self.v[k] = values[k];
            k += 1;
            assert(self.v@ =~= overwritten(old(self).v@, 0, taken.take(k as int)));
        }
        assert(taken.take(count as int) =~= taken);
    }

    /// The address register.
    pub fn i(&self) -> (addr: u16)
        ensures
            addr == self@.i,
            self@.wf(),
    {
        proof {
            use_type_invariant(self);
        }
        self.i
    }

    /// Sets the address register to the low 12 bits of `addr`.
    pub fn set_i(&mut self, addr: u16)
        ensures
            final(self)@ == old(self)@.with_i(addr as int),
            final(self)@.wf(),
    {
        proof {
            use_type_invariant(&*self);
        }
        self.i = addr % 0x1000;
    }

    /// The delay timer.
    pub fn dt(&self) -> (value: u8)
        ensures
            value == self@.dt,
            self@.wf(),
    {
        proof {
            use_type_invariant(self);
        }
        self.dt
    }

    /// Sets the delay timer.
    pub fn set_dt(&mut self, value: u8)
        ensures
            final(self)@ == old(self)@.with_dt(value),
            final(self)@.wf(),
    {
        proof {
            use_type_invariant(&*self);
        }
        self.dt = value;
    }

    /// The sound timer. The buzzer sounds while it is not zero.
    pub fn st(&self) -> (value: u8)
        ensures
            value == self@.st,
            self@.wf(),
    {
        proof {
            use_type_invariant(self);
        }
        self.st
    }

    /// Sets the sound timer.
    pub fn set_st(&mut self, value: u8)
        ensures
            final(self)@ == old(self)@.with_st(value),
            final(self)@.wf(),
    {
        proof {
            use_type_invariant(&*self);
        }
        self.st = value;
    }

    /// The program counter.
    pub fn pc(&self) -> (addr: u16)
        ensures
            addr == self@.pc,
            self@.wf(),
    {
        proof {
            use_type_invariant(self);
        }
        self.pc
    }

    /// Sets the program counter to the low 12 bits of `addr`.
    pub fn set_pc(&mut self, addr: u16)
        ensures
            final(self)@ == old(self)@.with_pc(addr as int),
            final(self)@.wf(),
    {
        proof {
            use_type_invariant(&*self);
        }
        self.pc = addr % 0x1000;
    }

    /// The stack pointer: the number of return addresses on the stack.
    pub fn sp(&self) -> (depth: u8)
        ensures
            depth == self@.stack.len(),
            self@.wf(),
    {
        proof {
            use_type_invariant(self);
        }
        self.sp
    }

    /// Calls the subroutine at the low 12 bits of `addr`: pushes the program
    /// counter and jumps. With sixteen return addresses on the stack the call
    /// is an error and changes nothing.
    pub fn call(&mut self, addr: u16) -> (r: Result<(), EngineError>)
        ensures
            final(self)@.wf(),
            old(self)@.stack.len() < STACK_DEPTH ==> r == Ok::<(), EngineError>(()) && final(self)@
                == old(self)@.called(addr),
            old(self)@.stack.len() >= STACK_DEPTH ==> r == Err::<(), EngineError>(
                EngineError::StackOverflow,
            ) && final(self)@ == old(self)@,
    {
        proof {
            use_type_invariant(&*self);
        }
        if self.sp as usize >= STACK_DEPTH {
            return Err(EngineError::StackOverflow);
        }
        self.stack[self.sp as usize] = self.pc;
        self.sp = self.sp + 1;
        self.pc = addr % 0x1000;
        assert(self.stack@.take(self.sp as int) =~= old(self)@.stack.push(old(self).pc));
        Ok(())
    }

    /// Returns from a subroutine: pops the newest return address into the
    /// program counter. With an empty stack the return is an error and
    /// changes nothing.
    pub fn ret(&mut self) -> (r: Result<(), EngineError>)
        ensures
            final(self)@.wf(),
            old(self)@.stack.len() > 0 ==> r == Ok::<(), EngineError>(()) && final(self)@ == old(
                self,
            )@.returned(),
            old(self)@.stack.len() == 0 ==> r == Err::<(), EngineError>(
                EngineError::StackUnderflow,
            ) && final(self)@ == old(self)@,
    {
        proof {
            use_type_invariant(&*self);
        }
        if self.sp == 0 {
            return Err(EngineError::StackUnderflow);
        }
        self.sp = self.sp - 1;
        self.pc = self.stack[self.sp as usize];
        assert(self.stack@.take(self.sp as int) =~= old(self)@.stack.drop_last());
        Ok(())
    }

    /// One tick of the 60 Hz clock: each timer that is not zero loses one.
    pub fn tick_timers(&mut self)
        ensures
            final(self)@ == old(self)@.ticked(),
            final(self)@.wf(),
    {
        proof {
            use_type_invariant(&*self);
        }
        if self.dt > 0 {
            self.dt = self.dt - 1;
        }
        if self.st > 0 {
            self.st = self.st - 1;
        }
    }
}

impl Default for Register {
    fn default() -> (r: Self)
        ensures
            r@ == RegisterView::reset(),
            r@.wf(),
    {
        Self::new()
    }
}

/// A call keeps the registers well formed while the stack has room, and the
/// return that follows it undoes it.
pub proof fn lemma_call_then_return(r: RegisterView, target: u16)
    requires
        r.wf(),
        r.stack.len() < STACK_DEPTH,
    ensures
        r.called(target).wf(),
        r.called(target).stack.len() == r.stack.len() + 1,
        r.called(target).returned() == r,
{
    assert(r.called(target).returned().stack =~= r.stack);
}

/// The stack balances: after any number of nested calls that the stack has
/// room for, as many returns bring back the program counter and the stack
/// that were there before the first call, and all the other registers are
/// as they were.
pub proof fn lemma_stack_balance(r: RegisterView, targets: Seq<u16>)
    requires
        r.wf(),
        r.stack.len() + targets.len() <= STACK_DEPTH,
    ensures
        r.after_calls(targets).wf(),
        r.after_calls(targets).stack.len() == r.stack.len() + targets.len(),
        r.after_calls(targets).after_returns(targets.len()) == r,
    decreases targets.len(),
{
    if targets.len() > 0 {
        let inner = r.after_calls(targets.drop_last());
        lemma_stack_balance(r, targets.drop_last());
        lemma_call_then_return(inner, targets.last());
        assert(inner.called(targets.last()).after_returns(targets.len()) == inner.after_returns(
            (targets.len() - 1) as nat,
        ));
    }
}

} // verus!
