//! The execution engine.

use crate::fault::Fault;
use crate::loader::{words_from_bytes, words_of};
use crate::machine::{
    advance, final_state, fits_i32, halts, lemma_advance_unfold_last, lemma_final_state,
    lemma_stop_lasts, step, stopped, stops_within, verdict, wrap32, Machine, Outcome,
    STACK_CAPACITY,
};
use crate::opcode::{decode_at, fetch, OpCode};
use vstd::prelude::*;

verus! {

/// The engine: an instruction stream, a bounded operand stack and the two
/// cursors into them.
///
/// What a `Vm` stands for is its view, a [`Machine`]: the words above the stack
/// pointer are not part of it.
pub struct Vm {
    code: Vec<i32>,
    stack: [i32; STACK_CAPACITY],
    sp: usize,
    pc: i32,
    sleep_ms: u64,
}

impl View for Vm {
    type V = Machine;

    closed spec fn view(&self) -> Machine {
        Machine { code: self.code@, stack: self.stack@.subrange(0, self.sp as int), pc: self.pc }
    }
}

/// `wrapping_add` keeps of the exact sum what `wrap32` keeps.
proof fn lemma_wrapping_add(a: i32, b: i32)
    ensures
        vstd::wrapping::i32_specs::wrapping_add(a, b) == wrap32(a + b),
{
}

/// `wrapping_mul` keeps of the exact product what `wrap32` keeps.
proof fn lemma_wrapping_mul(a: i32, b: i32)
    ensures
        vstd::wrapping::i32_specs::wrapping_mul(a, b) == wrap32(a * b),
{
}

impl Vm {
    #[verifier::type_invariant]
    spec fn stack_pointer_in_bounds(self) -> bool {
        self.sp <= STACK_CAPACITY
    }

    /// The delay, in milliseconds, that a driver is asked to observe after each
    /// instruction. It has no bearing on what the machine computes.
    pub closed spec fn delay(&self) -> u64 {
        self.sleep_ms
    }

    /// An engine about to execute `code` from `pc`, with an empty stack and no
    /// delay.
    pub fn new(code: Vec<i32>, pc: i32) -> (vm: Vm)
        ensures
            vm@ == (Machine { code: code@, stack: Seq::<i32>::empty(), pc }),
            vm.delay() == 0,
    {
        let vm = Vm { code, stack: [0;STACK_CAPACITY], sp: 0, pc, sleep_ms: 0 };
        assert(vm@.stack =~= Seq::<i32>::empty());
        vm
    }

    /// An engine about to execute, from its first word, the program whose file
    /// holds `bytes`.
    pub fn new_from_bytes(bytes: &[u8]) -> (vm: Vm)
        ensures
            vm@ == (Machine { code: words_of(bytes@), stack: Seq::<i32>::empty(), pc: 0 }),
            vm.delay() == 0,
    {
        Vm::new(words_from_bytes(bytes), 0)
    }

    /// Sets the delay that a driver is asked to observe after each instruction.
    pub fn set_sleep_ms(&mut self, sleep_ms: u64)
        ensures
            final(self).delay() == sleep_ms,
            final(self)@ == old(self)@,
    {
        proof {
            use_type_invariant(&*self);
        }
        self.sleep_ms = sleep_ms
    }

    /// The delay that a driver is asked to observe after each instruction.
    pub fn sleep_ms(&self) -> (ms: u64)
        ensures
            ms == self.delay(),
    {
        self.sleep_ms
    }

    /// The program counter: the index of the next instruction.
    pub fn pc(&self) -> (pc: i32)
        ensures
            pc == self@.pc,
    {
        self.pc
    }

    /// The stack pointer: the number of live words on the stack.
    pub fn sp(&self) -> (sp: usize)
        ensures
            sp == self@.stack.len(),
            sp <= STACK_CAPACITY,
    {
        proof {
            use_type_invariant(self);
        }
        self.sp
    }

    /// The instruction stream.
    pub fn code(&self) -> (words: &[i32])
        ensures
            words@ == self@.code,
    {
        self.code.as_slice()
    }

    /// The live words of the stack, bottom first.
    pub fn stack(&self) -> (words: &[i32])
        ensures
            words@ == self@.stack,
    {
        proof {
            use_type_invariant(self);
        }
        vstd::slice::slice_subrange(self.stack.as_slice(), 0, self.sp)
    }

    /// The `k`-th word of the instruction that starts at `pc`, once that
    /// instruction is known to lie inside the stream.
    pub(crate) fn operand(&self, pc: i32, k: usize) -> (word: i32)
        requires
            fetch(self@.code, pc as int) matches Ok(op) && k < op.width(),
        ensures
            word == self@.code[pc + k],
    {
        self.code[pc as usize + k]
    }

    /// Puts `x` on top of the stack.
    fn push_stack(&mut self, x: i32)
        requires
            old(self)@.stack.len() < STACK_CAPACITY,
        ensures
            final(self)@ == (Machine { stack: old(self)@.stack.push(x), ..old(self)@ }),
            final(self).delay() == old(self).delay(),
    {
        proof {
            use_type_invariant(&*self);
        }
        self.stack[self.sp] = x;
        self.sp += 1;
        assert(self@.stack =~= old(self)@.stack.push(x));
    }

    /// Takes the top word off the stack.
    fn pop_stack(&mut self) -> (x: i32)
        requires
            old(self)@.stack.len() > 0,
        ensures
            x == old(self)@.top(0),
            final(self)@ == (Machine { stack: old(self)@.below(1), ..old(self)@ }),
            final(self).delay() == old(self).delay(),
    {
        proof {
            use_type_invariant(&*self);
        }
        self.sp -= 1;
        assert(self@.stack =~= old(self)@.below(1));
        self.stack[self.sp]
    }

    /// Takes the `k` top words off the stack.
    fn discard(&mut self, k: usize)
        requires
            k <= old(self)@.stack.len(),
        ensures
            final(self)@ == (Machine { stack: old(self)@.below(k as int), ..old(self)@ }),
            final(self).delay() == old(self).delay(),
    {
        proof {
            use_type_invariant(&*self);
        }
        self.sp -= k;
        assert(self@.stack =~= old(self)@.below(k as int));
    }

    /// The word `k` places below the top of the stack.
    pub(crate) fn peek_stack(&self, k: usize) -> (x: i32)
        requires
            k < self@.stack.len(),
        ensures
            x == self@.top(k as int),
    {
        proof {
            use_type_invariant(self);
        }
        self.stack[self.sp - 1 - k]
    }

    /// Decodes the instruction that starts at `pc`.
    pub(crate) fn op_code(&self, pc: i32) -> (op: Result<OpCode, Fault>)
        ensures
            op == fetch(self@.code, pc as int),
    {
        if pc < 0 {
            return Err(Fault::PcOutOfRange);
        }
        decode_at(self.code.as_slice(), pc as usize)
    }

    /// The program counter `delta` words on from here, if a program counter can
    /// hold it.
    fn target(&self, delta: i32) -> (to: Result<i32, Fault>)
        ensures
            to == if fits_i32(self@.pc + delta) {
                Ok::<i32, Fault>((self@.pc + delta) as i32)
            } else {
                Err(Fault::PcOutOfRange)
            },
    {
        match self.pc.checked_add(delta) {
            Some(to) => Ok(to),
            None => Err(Fault::PcOutOfRange),
        }
    }

    /// Inserts the words of `data` into the stack at index `pos`. The live
    /// words from `pos` upwards move up by the length of `data`, the topmost
    /// first, so that none is overwritten before it has been moved.
    fn insert_data_to_pos(&mut self, pos: usize, data: &[i32])
        requires
            pos <= old(self)@.stack.len(),
            old(self)@.stack.len() + data@.len() <= STACK_CAPACITY,
        ensures
            final(self)@ == (Machine {
                stack: old(self)@.stack.subrange(0, pos as int) + data@ + old(self)@.stack.subrange(
                    pos as int,
                    old(self)@.stack.len() as int,
                ),
                ..old(self)@
            }),
            final(self).delay() == old(self).delay(),
    {
        proof {
            use_type_invariant(&*self);
        }
        let ghost before = self.stack@;
        let shift = data.len();
        let mut i = self.sp;
        while i > pos
            invariant
                pos <= i <= self.sp,
                self.sp + shift <= STACK_CAPACITY,
                shift == data@.len(),
                self.sp == old(self).sp,
                self.pc == old(self).pc,
                self.code == old(self).code,
                self.sleep_ms == old(self).sleep_ms,
                before == old(self).stack@,
                forall|j: int| 0 <= j < i + shift ==> self.stack@[j] == before[j],
                forall|j: int| i <= j < self.sp ==> self.stack@[j + shift] == before[j],
            decreases i,
        {
            i -= 1;
            self.stack[i + shift] = self.stack[i];
        }
        let mut k: usize = 0;
        while k < shift
            invariant
                k <= shift,
                pos <= self.sp,
                self.sp + shift <= STACK_CAPACITY,
                shift == data@.len(),
                self.sp == old(self).sp,
                self.pc == old(self).pc,
                self.code == old(self).code,
                self.sleep_ms == old(self).sleep_ms,
                before == old(self).stack@,
                forall|j: int| 0 <= j < pos ==> self.stack@[j] == before[j],
                forall|j: int| 0 <= j < k ==> self.stack@[pos + j] == data@[j],
                forall|j: int| pos <= j < self.sp ==> self.stack@[j + shift] == before[j],
            decreases shift - k,
        {
            self.stack[pos + k] = data[k];
            k += 1;
        }
        self.sp += shift;
        assert(self@.stack =~= old(self)@.stack.subrange(0, pos as int) + data@ + old(
            self,
        )@.stack.subrange(pos as int, old(self)@.stack.len() as int));
    }

    /// Executes the instruction under the program counter.
    ///
    /// Returns `Ok(true)` if that instruction was `End`, which changes nothing,
    /// and `Ok(false)` after any other instruction that could be carried out.
    /// An instruction that cannot be carried out changes nothing either: the
    /// fault is returned and the engine is as it was.
    pub fn exec_op(&mut self) -> (stop: Result<bool, Fault>)
        ensures
            match step(old(self)@) {
                Outcome::Next(next) => stop == Ok::<bool, Fault>(false) && final(self)@ == next,
                Outcome::Halt => stop == Ok::<bool, Fault>(true) && final(self)@ == old(self)@,
                Outcome::Fault(f) => stop == Err::<bool, Fault>(f) && final(self)@ == old(self)@,
            },
            final(self).delay() == old(self).delay(),
    {
        proof {
            use_type_invariant(&*self);
        }
        let pc = self.pc;
        let op = self.op_code(pc)?;
        match op {
            OpCode::Cst => {
                let i = self.operand(pc, 1);
                if self.sp >= STACK_CAPACITY {
                    return Err(Fault::StackOverflow);
                }
                let next = self.target(2)?;
                self.push_stack(i);
                proof {
                    use_type_invariant(&*self);
                }
                self.pc = next;
            },
            OpCode::Add => {
                if self.sp < 2 {
                    return Err(Fault::StackUnderflow);
                }
                let next = self.target(1)?;
                let a = self.pop_stack();
                let b = self.pop_stack();
                proof {
                    lemma_wrapping_add(a, b);
                }
                self.push_stack(a.wrapping_add(b));
                assert(self@.stack =~= old(self)@.below(2).push(wrap32(a + b)));
                proof {
                    use_type_invariant(&*self);
                }
                self.pc = next;
            },
            OpCode::Mul => {
                if self.sp < 2 {
                    return Err(Fault::StackUnderflow);
                }
                let next = self.target(1)?;
                let a = self.pop_stack();
                let b = self.pop_stack();
                proof {
                    lemma_wrapping_mul(a, b);
                }
                self.push_stack(a.wrapping_mul(b));
                assert(self@.stack =~= old(self)@.below(2).push(wrap32(a * b)));
                proof {
                    use_type_invariant(&*self);
                }
                self.pc = next;
            },
            OpCode::Var => {
                let i = self.operand(pc, 1);
                if i < 0 {
                    return Err(Fault::NegativeOperand(i));
                }
                if i as usize >= self.sp {
                    return Err(Fault::StackUnderflow);
                }
                if self.sp >= STACK_CAPACITY {
                    return Err(Fault::StackOverflow);
                }
                let next = self.target(2)?;
                let vardata = self.peek_stack(i as usize);
                self.push_stack(vardata);
                proof {
                    use_type_invariant(&*self);
                }
                self.pc = next;
            },
            OpCode::Pop => {
                if self.sp < 1 {
                    return Err(Fault::StackUnderflow);
                }
                let next = self.target(1)?;
                self.pop_stack();
                proof {
                    use_type_invariant(&*self);
                }
                self.pc = next;
            },
            OpCode::Swap => {
                if self.sp < 2 {
                    return Err(Fault::StackUnderflow);
                }
                let next = self.target(1)?;
                let a = self.pop_stack();
                let b = self.pop_stack();
                self.push_stack(a);
                self.push_stack(b);
                assert(self@.stack =~= old(self)@.below(2).push(a).push(b));
                proof {
                    use_type_invariant(&*self);
                }
                self.pc = next;
            },
            OpCode::Call => {
                let offset = self.operand(pc, 1);
                let arity = self.operand(pc, 2);
                if arity < 0 {
                    return Err(Fault::NegativeOperand(arity));
                }
                if arity as usize > self.sp {
                    return Err(Fault::StackUnderflow);
                }
                if self.sp >= STACK_CAPACITY {
                    return Err(Fault::StackOverflow);
                }
                let back = self.target(3)?;
                let next_pc = self.target(offset)?;
                let data = [back];
                self.insert_data_to_pos(self.sp - arity as usize, data.as_slice());
                assert(self@.stack =~= old(self)@.below(arity as int).push(back) + old(
                    self,
                )@.top_words(arity as int));
                proof {
                    use_type_invariant(&*self);
                }
                self.pc = next_pc;
            },
            OpCode::Ret => {
                let arity = self.operand(pc, 1);
                if arity < 0 {
                    return Err(Fault::NegativeOperand(arity));
                }
                if self.sp < 2 || self.sp - 2 < arity as usize {
                    return Err(Fault::StackUnderflow);
                }
                let res = self.pop_stack();
                self.discard(arity as usize);
                let next_pc = self.pop_stack();
                self.push_stack(res);
                assert(self@.stack =~= old(self)@.below(arity + 2).push(old(self)@.top(0)));
                proof {
                    use_type_invariant(&*self);
                }
                self.pc = next_pc;
            },
            OpCode::IfZero => {
                let offset = self.operand(pc, 1);
                if self.sp < 1 {
                    return Err(Fault::StackUnderflow);
                }
                let cond = self.peek_stack(0);
                let next = if cond == 0 {
                    self.target(offset)?
                } else {
                    self.target(2)?
                };
                self.pop_stack();
                proof {
                    use_type_invariant(&*self);
                }
                self.pc = next;
            },
            OpCode::Goto => {
                let offset = self.operand(pc, 1);
                let next = self.target(offset)?;
                proof {
                    use_type_invariant(&*self);
                }
                self.pc = next;
            },
            OpCode::End => {
                return Ok(true);
            },
        }
        Ok(false)
    }

    /// Executes instructions until one of them is `End` or faults.
    ///
    /// The engine is left in the state in which the machine stopped: at the
    /// `End`, or before the instruction that faulted. No delay is observed
    /// between instructions.
    ///
    /// A program that never stops would keep this function from returning, so
    /// the caller has to know that the machine halts. [`Vm::run_for`] asks for
    /// no such knowledge.
    pub fn run(&mut self) -> (end: Result<(), Fault>)
        requires
            halts(old(self)@),
        ensures
            final(self)@ == final_state(old(self)@),
            end == verdict(final(self)@),
            final(self).delay() == old(self).delay(),
    {
        let ghost start = self@;
        let ghost total: nat = choose|n: nat| stopped(#[trigger] advance(start, n));
        let ghost done: nat = 0;
        let mut stop = false;
        while !stop
            invariant
                start == old(self)@,
                stopped(advance(start, total)),
                done <= total,
                self@ == advance(start, done),
                stop ==> stopped(self@) && verdict(self@) == Ok::<(), Fault>(()),
                self.delay() == old(self).delay(),
            decreases total - done + if stop { 0int } else { 1int },
        {
            match self.exec_op() {
                Ok(ended) => {
                    stop = ended;
                    proof {
                        if !ended {
                            lemma_advance_unfold_last(start, done);
                            done = done + 1;
                        }
                    }
                },
                Err(f) => {
                    proof {
                        lemma_final_state(start, done);
                    }
                    return Err(f);
                },
            }
        }
        proof {
            lemma_final_state(start, done);
        }
        Ok(())
    }

    /// Executes at most `limit` instructions, and fewer if one of them is `End`
    /// or faults.
    ///
    /// Returns `Ok(true)` if the machine came to an `End`, the fault if it
    /// faulted, and `Ok(false)` if the limit was used up before it stopped. In
    /// each case the engine is left where the machine is after `limit`
    /// instructions, which is where it stopped if it did.
    pub fn run_for(&mut self, limit: u64) -> (end: Result<bool, Fault>)
        ensures
            final(self)@ == advance(old(self)@, limit as nat),
            end == if stops_within(old(self)@, limit as nat) {
                match verdict(final(self)@) {
                    Ok(_) => Ok::<bool, Fault>(true),
                    Err(f) => Err(f),
                }
            } else {
                Ok(false)
            },
            final(self).delay() == old(self).delay(),
    {
        let ghost start = self@;
        let mut done: u64 = 0;
        while done < limit
            invariant
                start == old(self)@,
                done <= limit,
                self@ == advance(start, done as nat),
                done > 0 ==> !stopped(advance(start, (done - 1) as nat)),
                self.delay() == old(self).delay(),
            decreases limit - done,
        {
            match self.exec_op() {
                Ok(ended) => {
                    if ended {
                        proof {
                            lemma_stop_lasts(start, done as nat, limit as nat);
                            lemma_stop_lasts(start, done as nat, (limit - 1) as nat);
                        }
                        return Ok(true);
                    }
                    proof {
                        lemma_advance_unfold_last(start, done as nat);
                    }
                    done += 1;
                },
                Err(f) => {
                    proof {
                        lemma_stop_lasts(start, done as nat, limit as nat);
                        lemma_stop_lasts(start, done as nat, (limit - 1) as nat);
                    }
                    return Err(f);
                },
            }
        }
        Ok(false)
    }

    /// Takes the top word off the stack and returns it: the result of a program
    /// that has come to its `End`.
    ///
    /// Nothing ties the call to an `End`: whatever is on top is returned. On an
    /// empty stack the call fails and changes nothing.
    pub fn get_result(&mut self) -> (res: Result<i32, Fault>)
        ensures
            res == if old(self)@.stack.len() > 0 {
                Ok::<i32, Fault>(old(self)@.top(0))
            } else {
                Err(Fault::StackUnderflow)
            },
            final(self)@ == if old(self)@.stack.len() > 0 {
                Machine { stack: old(self)@.below(1), ..old(self)@ }
            } else {
                old(self)@
            },
            final(self).delay() == old(self).delay(),
    {
        proof {
            use_type_invariant(&*self);
        }
        if self.sp == 0 {
            return Err(Fault::StackUnderflow);
        }
        Ok(self.pop_stack())
    }
}

} // verus!
