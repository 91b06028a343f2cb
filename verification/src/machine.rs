//! The abstract machine: what a program means.
//!
//! Everything here is specification. The executable engine is proved to move
//! exactly as [`step`] says.

use crate::fault::Fault;
use crate::opcode::{fetch, OpCode};
use vstd::prelude::*;

verus! {

/// The number of words the operand stack can hold.
pub const STACK_CAPACITY: usize = 400;

/// The state of the machine between two instructions.
pub struct Machine {
    /// The instruction stream. It never changes.
    pub code: Seq<i32>,
    /// The live words of the operand stack, bottom first. Its length is the
    /// stack pointer.
    pub stack: Seq<i32>,
    /// The index in `code` of the next instruction.
    pub pc: i32,
}

/// What one instruction does to a machine.
pub enum Outcome {
    /// The instruction was carried out and left this state.
    Next(Machine),
    /// The instruction was `End`.
    Halt,
    /// The instruction could not be carried out.
    Fault(Fault),
}

/// Whether `x` can be held in a 32-bit signed word.
pub open spec fn fits_i32(x: int) -> bool {
    i32::MIN <= x <= i32::MAX
}

/// The 32-bit two's-complement word that is congruent to `x` modulo 2^32: what
/// wrapping arithmetic keeps of an exact result.
pub open spec fn wrap32(x: int) -> i32 {
    let r = x % 0x1_0000_0000;
    if r > i32::MAX {
        (r - 0x1_0000_0000) as i32
    } else {
        r as i32
    }
}

impl Machine {
    /// The `k`-th word of the instruction under the program counter; word 0 is
    /// the tag.
    pub open spec fn operand(self, k: int) -> i32 {
        self.code[self.pc + k]
    }

    /// The word `k` places below the top of the stack; `top(0)` is the top.
    pub open spec fn top(self, k: int) -> i32 {
        self.stack[self.stack.len() - 1 - k]
    }

    /// The stack without its `k` top words.
    pub open spec fn below(self, k: int) -> Seq<i32> {
        self.stack.subrange(0, self.stack.len() - k)
    }

    /// The `k` top words of the stack, lowest first.
    pub open spec fn top_words(self, k: int) -> Seq<i32> {
        self.stack.subrange(self.stack.len() - k, self.stack.len() as int)
    }

    /// Going on at `target` with `stack`, which is a fault if `target` is not a
    /// 32-bit word.
    pub open spec fn resume(self, stack: Seq<i32>, target: int) -> Outcome {
        if fits_i32(target) {
            Outcome::Next(Machine { code: self.code, stack, pc: target as i32 })
        } else {
            Outcome::Fault(Fault::PcOutOfRange)
        }
    }

    /// The effect of the operation `op`, read with its operands from under the
    /// program counter.
    pub open spec fn execute(self, op: OpCode) -> Outcome {
        let n = self.stack.len();
        let pc = self.pc as int;
        match op {
            OpCode::Cst => {
                if n >= STACK_CAPACITY {
                    Outcome::Fault(Fault::StackOverflow)
                } else {
                    self.resume(self.stack.push(self.operand(1)), pc + 2)
                }
            },
            OpCode::Add => {
                if n < 2 {
                    Outcome::Fault(Fault::StackUnderflow)
                } else {
                    self.resume(self.below(2).push(wrap32(self.top(0) + self.top(1))), pc + 1)
                }
            },
            OpCode::Mul => {
                if n < 2 {
                    Outcome::Fault(Fault::StackUnderflow)
                } else {
                    self.resume(self.below(2).push(wrap32(self.top(0) * self.top(1))), pc + 1)
                }
            },
            OpCode::Var => {
                let i = self.operand(1);
                if i < 0 {
                    Outcome::Fault(Fault::NegativeOperand(i))
                } else if i >= n {
                    Outcome::Fault(Fault::StackUnderflow)
                } else if n >= STACK_CAPACITY {
                    Outcome::Fault(Fault::StackOverflow)
                } else {
                    self.resume(self.stack.push(self.top(i as int)), pc + 2)
                }
            },
            OpCode::Pop => {
                if n < 1 {
                    Outcome::Fault(Fault::StackUnderflow)
                } else {
                    self.resume(self.below(1), pc + 1)
                }
            },
            OpCode::Swap => {
                if n < 2 {
                    Outcome::Fault(Fault::StackUnderflow)
                } else {
                    self.resume(self.below(2).push(self.top(0)).push(self.top(1)), pc + 1)
                }
            },
            OpCode::Call => {
                let offset = self.operand(1);
                let arity = self.operand(2);
                if arity < 0 {
                    Outcome::Fault(Fault::NegativeOperand(arity))
                } else if arity > n {
                    Outcome::Fault(Fault::StackUnderflow)
                } else if n >= STACK_CAPACITY {
                    Outcome::Fault(Fault::StackOverflow)
                } else if !fits_i32(pc + 3) {
                    Outcome::Fault(Fault::PcOutOfRange)
                } else {
                    self.resume(
                        self.below(arity as int).push((pc + 3) as i32) + self.top_words(
                            arity as int,
                        ),
                        pc + offset,
                    )
                }
            },
            OpCode::Ret => {
                let arity = self.operand(1);
                if arity < 0 {
                    Outcome::Fault(Fault::NegativeOperand(arity))
                } else if n < arity + 2 {
                    Outcome::Fault(Fault::StackUnderflow)
                } else {
                    self.resume(self.below(arity + 2).push(self.top(0)), self.top(arity + 1) as int)
                }
            },
            OpCode::IfZero => {
                let offset = self.operand(1);
                if n < 1 {
                    Outcome::Fault(Fault::StackUnderflow)
                } else if self.top(0) == 0 {
                    self.resume(self.below(1), pc + offset)
                } else {
                    self.resume(self.below(1), pc + 2)
                }
            },
            OpCode::Goto => self.resume(self.stack, pc + self.operand(1)),
            OpCode::End => Outcome::Halt,
        }
    }
}

/// The single-step relation: what the instruction under the program counter
/// does to `m`.
pub open spec fn step(m: Machine) -> Outcome {
    match fetch(m.code, m.pc as int) {
        Err(f) => Outcome::Fault(f),
        Ok(op) => m.execute(op),
    }
}

/// Whether the machine goes no further from `m`: the next instruction is `End`
/// or faults.
pub open spec fn stopped(m: Machine) -> bool {
    !(step(m) is Next)
}

/// How a stopped machine came to stop: `Ok` at an `End`, otherwise the fault.
pub open spec fn verdict(m: Machine) -> Result<(), Fault> {
    match step(m) {
        Outcome::Fault(f) => Err(f),
        _ => Ok(()),
    }
}

/// The state one instruction later; a stopped machine stays where it is.
pub open spec fn successor(m: Machine) -> Machine {
    match step(m) {
        Outcome::Next(next) => next,
        _ => m,
    }
}

/// The state `n` instructions later, or the state in which the machine stopped
/// if it stopped before that.
pub open spec fn advance(m: Machine, n: nat) -> Machine
    decreases n,
{
    if n == 0 {
        m
    } else {
        advance(successor(m), (n - 1) as nat)
    }
}

/// Whether the machine started in `m` stops after finitely many instructions.
pub open spec fn halts(m: Machine) -> bool {
    exists|n: nat| stopped(#[trigger] advance(m, n))
}

/// Steps add up.
pub proof fn lemma_advance_add(m: Machine, a: nat, b: nat)
    ensures
        advance(m, a + b) == advance(advance(m, a), b),
    decreases a,
{
    if a > 0 {
        lemma_advance_add(successor(m), (a - 1) as nat, b);
    }
}

/// One more instruction at the end is one more instruction at the start.
pub proof fn lemma_advance_unfold_last(m: Machine, n: nat)
    ensures
        advance(m, n + 1) == successor(advance(m, n)),
{
    lemma_advance_add(m, n, 1);
    reveal_with_fuel(advance, 2);
}

/// A stopped machine stays in the state in which it stopped.
pub proof fn lemma_stopped_stays(m: Machine, n: nat)
    requires
        stopped(m),
    ensures
        advance(m, n) == m,
    decreases n,
{
    if n > 0 {
        lemma_stopped_stays(m, (n - 1) as nat);
    }
}

/// Once a run is found stopped it is found in the same state ever after.
pub proof fn lemma_stop_lasts(m: Machine, a: nat, b: nat)
    requires
        stopped(advance(m, a)),
        a <= b,
    ensures
        advance(m, b) == advance(m, a),
{
    lemma_advance_add(m, a, (b - a) as nat);
    lemma_stopped_stays(advance(m, a), (b - a) as nat);
}

/// All the states in which a run is found stopped are the same state: the one
/// in which it stopped first.
pub proof fn lemma_stop_is_unique(m: Machine, a: nat, b: nat)
    requires
        stopped(advance(m, a)),
        stopped(advance(m, b)),
    ensures
        advance(m, a) == advance(m, b),
{
    if a <= b {
        lemma_stop_lasts(m, a, b);
    } else {
        lemma_stop_lasts(m, b, a);
    }
}

/// Whether the machine started in `m` stops before it has executed `limit`
/// instructions: whether one of the first `limit` instructions is an `End` or
/// faults.
pub open spec fn stops_within(m: Machine, limit: nat) -> bool {
    limit > 0 && stopped(advance(m, (limit - 1) as nat))
}

/// A machine stops within a limit exactly if it is found stopped after fewer
/// instructions than the limit.
pub proof fn lemma_stops_within(m: Machine, limit: nat)
    ensures
        stops_within(m, limit) <==> exists|n: nat| n < limit && stopped(#[trigger] advance(m, n)),
{
    if stops_within(m, limit) {
        assert(stopped(advance(m, (limit - 1) as nat)));
    }
    if exists|n: nat| n < limit && stopped(#[trigger] advance(m, n)) {
        let n = choose|n: nat| n < limit && stopped(#[trigger] advance(m, n));
        lemma_stop_lasts(m, n, (limit - 1) as nat);
    }
}

/// The state in which the machine started in `m` comes to a stop, if it halts.
pub open spec fn final_state(m: Machine) -> Machine {
    advance(m, choose|n: nat| stopped(#[trigger] advance(m, n)))
}

/// A state in which a run is found stopped is its final state.
pub proof fn lemma_final_state(m: Machine, n: nat)
    requires
        stopped(advance(m, n)),
    ensures
        halts(m),
        final_state(m) == advance(m, n),
{
    let k = choose|k: nat| stopped(#[trigger] advance(m, k));
    lemma_stop_is_unique(m, k, n);
}

} // verus!
