use vstd::prelude::*;

verus! {

/// The ways in which the machine refuses to go on.
///
/// A fault is final for the instruction that raised it: the machine state is
/// left exactly as it was before the instruction was attempted.
#[derive(Clone, Copy, Debug, PartialEq, Eq, Structural)]
pub enum Fault {
    /// The word under the program counter is not an opcode tag. Carries the
    /// offending word.
    UnknownOpcode(i32),
    /// The program counter, one of the operand words of the instruction it
    /// addresses, or the target of a jump lies outside what a program counter
    /// can address.
    PcOutOfRange,
    /// An instruction asked for more live stack words than there are.
    StackUnderflow,
    /// An instruction would have grown the stack beyond its capacity.
    StackOverflow,
    /// A displacement or an arity operand is negative.
    NegativeOperand(i32),
}

} // verus!
