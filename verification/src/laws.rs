//! What follows from the definition of the machine: theorems about the
//! instruction set, each proved from [`step`].

use crate::fault::Fault;
use crate::machine::{
    advance, final_state, fits_i32, halts, lemma_advance_unfold_last, lemma_final_state,
    lemma_stop_lasts, step, stops_within, successor, verdict, wrap32, Machine, Outcome,
    STACK_CAPACITY,
};
use crate::opcode::{fetch, OpCode};
use vstd::prelude::*;

verus! {

/// The program that pushes the words of `consts`, first to last, and ends.
pub open spec fn constants_program(consts: Seq<i32>) -> Seq<i32> {
    Seq::new(
        2 * consts.len() + 1,
        |i: int|
            if i == 2 * consts.len() {
                OpCode::End.tag()
            } else if i % 2 == 0 {
                OpCode::Cst.tag()
            } else {
                consts[i / 2]
            },
    )
}

/// The machine about to execute `code` from its first word on an empty stack.
pub open spec fn fresh(code: Seq<i32>) -> Machine {
    Machine { code, stack: Seq::empty(), pc: 0 }
}

/// After `k` instructions of a program of constants the first `k` constants
/// are on the stack.
proof fn lemma_constants_pushed(consts: Seq<i32>, k: nat)
    requires
        consts.len() <= STACK_CAPACITY,
        k <= consts.len(),
    ensures
        advance(fresh(constants_program(consts)), k) == (Machine {
            code: constants_program(consts),
            stack: consts.subrange(0, k as int),
            pc: (2 * k) as i32,
        }),
    decreases k,
{
    let code = constants_program(consts);
    let start = fresh(code);
    if k == 0 {
        assert(consts.subrange(0, 0) =~= Seq::<i32>::empty());
    } else {
        let prev = (k - 1) as nat;
        lemma_constants_pushed(consts, prev);
        lemma_advance_unfold_last(start, prev);
        let before = advance(start, prev);
        let j = prev as int;
        assert(code[2 * j] == OpCode::Cst.tag());
        assert(code[2 * j + 1] == consts[j]);
        assert(fetch(code, 2 * j) == Ok::<OpCode, Fault>(OpCode::Cst));
        assert(before.stack.push(consts[j]) =~= consts.subrange(0, k as int));
    }
}

/// Running a program that only pushes constants and ends leaves exactly those
/// constants on the stack, the last one on top: it is what `get_result`
/// returns after `run`.
pub proof fn lemma_constants_program_result(consts: Seq<i32>)
    requires
        1 <= consts.len() <= STACK_CAPACITY,
    ensures
        halts(fresh(constants_program(consts))),
        verdict(final_state(fresh(constants_program(consts)))) == Ok::<(), Fault>(()),
        final_state(fresh(constants_program(consts))).stack == consts,
        final_state(fresh(constants_program(consts))).top(0) == consts.last(),
{
    let code = constants_program(consts);
    let start = fresh(code);
    let len = consts.len();
    lemma_constants_pushed(consts, len);
    let end = advance(start, len);
    let n = len as int;
    assert(consts.subrange(0, n) =~= consts);
    assert(code[2 * n] == OpCode::End.tag());
    assert(fetch(code, 2 * n) == Ok::<OpCode, Fault>(OpCode::End));
    assert(step(end) == Outcome::Halt);
    lemma_final_state(start, len);
}

/// The machine `m` with the two top words of its stack exchanged.
pub open spec fn exchanged(m: Machine) -> Machine {
    Machine { stack: m.below(2).push(m.top(0)).push(m.top(1)), ..m }
}

/// `Add` leaves the wrapped sum of the two top words and `Mul` their wrapped
/// product, and neither depends on which of the two words is on top.
pub proof fn lemma_arithmetic_ignores_operand_order(m: Machine)
    requires
        fetch(m.code, m.pc as int) == Ok::<OpCode, Fault>(OpCode::Add) || fetch(
            m.code,
            m.pc as int,
        ) == Ok::<OpCode, Fault>(OpCode::Mul),
        m.stack.len() >= 2,
    ensures
        step(exchanged(m)) == step(m),
        fetch(m.code, m.pc as int) == Ok::<OpCode, Fault>(OpCode::Add) ==> step(m) == m.resume(
            m.below(2).push(wrap32(m.top(0) + m.top(1))),
            m.pc + 1,
        ),
        fetch(m.code, m.pc as int) == Ok::<OpCode, Fault>(OpCode::Mul) ==> step(m) == m.resume(
            m.below(2).push(wrap32(m.top(0) * m.top(1))),
            m.pc + 1,
        ),
{
    let x = exchanged(m);
    assert(x.below(2) =~= m.below(2));
    assert(x.top(0) == m.top(1));
    assert(x.top(1) == m.top(0));
    assert(m.top(0) * m.top(1) == m.top(1) * m.top(0)) by (nonlinear_arith);
}

/// `Swap` is its own inverse: two of them in a row leave the stack as it was.
pub proof fn lemma_swap_twice(m: Machine)
    requires
        fetch(m.code, m.pc as int) == Ok::<OpCode, Fault>(OpCode::Swap),
        fetch(m.code, m.pc + 1) == Ok::<OpCode, Fault>(OpCode::Swap),
        m.pc + 2 <= i32::MAX,
        m.stack.len() >= 2,
    ensures
        advance(m, 2) == (Machine { pc: (m.pc + 2) as i32, ..m }),
{
    reveal_with_fuel(advance, 3);
    let once = Machine { stack: exchanged(m).stack, pc: (m.pc + 1) as i32, ..m };
    assert(step(m) == Outcome::Next(once));
    assert(once.below(2).push(once.top(0)).push(once.top(1)) =~= m.stack);
}

/// `Var` reads without popping: every live word stays where it is, and a copy
/// of the word at the displacement comes on top.
pub proof fn lemma_load_var_keeps_stack(m: Machine)
    requires
        fetch(m.code, m.pc as int) == Ok::<OpCode, Fault>(OpCode::Var),
        step(m) is Next,
    ensures
        step(m)->Next_0.stack == m.stack.push(m.top(m.operand(1) as int)),
        step(m)->Next_0.stack.subrange(0, m.stack.len() as int) == m.stack,
        0 <= m.operand(1) < m.stack.len(),
{
    assert(m.stack.push(m.top(m.operand(1) as int)).subrange(0, m.stack.len() as int)
        =~= m.stack);
}

/// What `Var` reads depends on the stack and the displacement alone: on equal
/// stacks, equal displacements read equal words.
pub proof fn lemma_load_var_repeatable(a: Machine, b: Machine)
    requires
        fetch(a.code, a.pc as int) == Ok::<OpCode, Fault>(OpCode::Var),
        fetch(b.code, b.pc as int) == Ok::<OpCode, Fault>(OpCode::Var),
        a.operand(1) == b.operand(1),
        a.stack == b.stack,
        step(a) is Next,
        step(b) is Next,
    ensures
        step(a)->Next_0.stack == step(b)->Next_0.stack,
        step(a)->Next_0.top(0) == step(b)->Next_0.top(0),
{
}

/// A call into a callee that pushes the constant `result` and returns at once
/// comes back behind the call with the arguments gone and `result` in their
/// place.
pub proof fn lemma_call_return_round_trip(m: Machine, result: i32)
    requires
        fetch(m.code, m.pc as int) == Ok::<OpCode, Fault>(OpCode::Call),
        0 <= m.operand(2) <= m.stack.len(),
        m.stack.len() + 2 <= STACK_CAPACITY,
        fits_i32(m.pc + 3),
        fits_i32(m.pc + m.operand(1) + 2),
        fetch(m.code, m.pc + m.operand(1)) == Ok::<OpCode, Fault>(OpCode::Cst),
        m.code[m.pc + m.operand(1) + 1] == result,
        fetch(m.code, m.pc + m.operand(1) + 2) == Ok::<OpCode, Fault>(OpCode::Ret),
        m.code[m.pc + m.operand(1) + 3] == m.operand(2),
    ensures
        advance(m, 3) == (Machine {
            code: m.code,
            stack: m.below(m.operand(2) as int).push(result),
            pc: (m.pc + 3) as i32,
        }),
{
    reveal_with_fuel(advance, 4);
    let arity = m.operand(2) as int;
    let callee = m.pc + m.operand(1);
    let back = (m.pc + 3) as i32;
    let entered = Machine {
        code: m.code,
        stack: m.below(arity).push(back) + m.top_words(arity),
        pc: callee as i32,
    };
    assert(step(m) == Outcome::Next(entered));
    let loaded = Machine { stack: entered.stack.push(result), pc: (callee + 2) as i32, ..entered };
    assert(step(entered) == Outcome::Next(loaded));
    assert(loaded.top(0) == result);
    assert(loaded.top(arity + 1) == back);
    assert(loaded.below(arity + 2) =~= m.below(arity));
}

/// `IfZero` pops the condition and jumps exactly if it is zero: any other
/// word, positive or negative, falls through to the next instruction.
pub proof fn lemma_if_zero_jumps_on_zero_only(m: Machine)
    requires
        fetch(m.code, m.pc as int) == Ok::<OpCode, Fault>(OpCode::IfZero),
        m.stack.len() >= 1,
    ensures
        m.top(0) == 0 ==> step(m) == m.resume(m.below(1), m.pc + m.operand(1)),
        m.top(0) != 0 ==> step(m) == m.resume(m.below(1), m.pc + 2),
        step(m) matches Outcome::Next(next) ==> next.stack == m.below(1) && (next.pc == m.pc
            + m.operand(1) <==> m.top(0) == 0 || m.operand(1) == 2),
{
}

/// No instruction changes the instruction stream, and none grows the stack
/// beyond its capacity.
pub proof fn lemma_step_keeps_code_and_capacity(m: Machine)
    requires
        m.stack.len() <= STACK_CAPACITY,
    ensures
        successor(m).code == m.code,
        successor(m).stack.len() <= STACK_CAPACITY,
{
}

/// However long the machine runs, the instruction stream stays what it was
/// and the stack stays within its capacity.
pub proof fn lemma_run_keeps_code_and_capacity(m: Machine, n: nat)
    requires
        m.stack.len() <= STACK_CAPACITY,
    ensures
        advance(m, n).code == m.code,
        advance(m, n).stack.len() <= STACK_CAPACITY,
    decreases n,
{
    if n > 0 {
        lemma_step_keeps_code_and_capacity(m);
        lemma_run_keeps_code_and_capacity(successor(m), (n - 1) as nat);
    }
}

/// A run that stops within a limit is, at the limit, in its final state: what
/// `run_for` leaves is then what `run` leaves.
pub proof fn lemma_limit_reaches_final_state(m: Machine, limit: nat)
    requires
        stops_within(m, limit),
    ensures
        halts(m),
        advance(m, limit) == final_state(m),
{
    lemma_final_state(m, (limit - 1) as nat);
    lemma_stop_lasts(m, (limit - 1) as nat, limit);
}

} // verus!
