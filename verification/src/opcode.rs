//! The instruction encoding: tags, widths, and fetching an instruction from a
//! stream of words.

use crate::fault::Fault;
use vstd::prelude::*;

verus! {

/// The operations of the machine. Each instruction is a tag word followed by a
/// fixed number of operand words.
#[derive(Clone, Copy, Debug, PartialEq, Eq, Structural)]
pub enum OpCode {
    /// Push the operand word.
    Cst,
    /// Replace the two top words by their wrapping sum.
    Add,
    /// Replace the two top words by their wrapping product.
    Mul,
    /// Push a copy of the word at the given displacement below the top.
    Var,
    /// Drop the top word.
    Pop,
    /// Exchange the two top words.
    Swap,
    /// Enter a callee: slide a return address under the arguments and jump.
    Call,
    /// Leave a callee: drop arguments and return address, keep the result, jump back.
    Ret,
    /// Pop a condition and jump if it is zero.
    IfZero,
    /// Jump.
    Goto,
    /// Stop.
    End,
}

impl OpCode {
    /// The operation that a tag word selects, if it selects one.
    pub open spec fn of_tag(tag: i32) -> Option<OpCode> {
        if tag == 0 {
            Some(OpCode::Cst)
        } else if tag == 1 {
            Some(OpCode::Add)
        } else if tag == 2 {
            Some(OpCode::Mul)
        } else if tag == 3 {
            Some(OpCode::Var)
        } else if tag == 4 {
            Some(OpCode::Pop)
        } else if tag == 5 {
            Some(OpCode::Swap)
        } else if tag == 6 {
            Some(OpCode::Call)
        } else if tag == 7 {
            Some(OpCode::Ret)
        } else if tag == 8 {
            Some(OpCode::IfZero)
        } else if tag == 9 {
            Some(OpCode::Goto)
        } else if tag == 10 {
            Some(OpCode::End)
        } else {
            None
        }
    }

    /// The number of words an instruction occupies, its tag included.
    pub open spec fn width(self) -> int {
        match self {
            OpCode::Cst => 2,
            OpCode::Add => 1,
            OpCode::Mul => 1,
            OpCode::Var => 2,
            OpCode::Pop => 1,
            OpCode::Swap => 1,
            OpCode::Call => 3,
            OpCode::Ret => 2,
            OpCode::IfZero => 2,
            OpCode::Goto => 2,
            OpCode::End => 1,
        }
    }

    /// The tag word of an operation.
    pub open spec fn tag(self) -> i32 {
        match self {
            OpCode::Cst => 0,
            OpCode::Add => 1,
            OpCode::Mul => 2,
            OpCode::Var => 3,
            OpCode::Pop => 4,
            OpCode::Swap => 5,
            OpCode::Call => 6,
            OpCode::Ret => 7,
            OpCode::IfZero => 8,
            OpCode::Goto => 9,
            OpCode::End => 10,
        }
    }

    /// Decodes a tag word. `None` exactly for the words outside `0..=10`.
    pub fn from_tag(tag: i32) -> (op: Option<OpCode>)
        ensures
            op == OpCode::of_tag(tag),
            op is Some <==> 0 <= tag <= 10,
            op matches Some(o) ==> o.tag() == tag,
    {
        match tag {
            0 => Some(OpCode::Cst),
            1 => Some(OpCode::Add),
            2 => Some(OpCode::Mul),
            3 => Some(OpCode::Var),
            4 => Some(OpCode::Pop),
            5 => Some(OpCode::Swap),
            6 => Some(OpCode::Call),
            7 => Some(OpCode::Ret),
            8 => Some(OpCode::IfZero),
            9 => Some(OpCode::Goto),
            10 => Some(OpCode::End),
            _ => None,
        }
    }

    /// The number of words the instruction occupies: one for the tag and one
    /// for each operand.
    pub fn len(&self) -> (n: usize)
        ensures
            n == self.width(),
            1 <= n <= 3,
    {
        match *self {
            OpCode::Cst => 2,
            OpCode::Add => 1,
            OpCode::Mul => 1,
            OpCode::Var => 2,
            OpCode::Pop => 1,
            OpCode::Swap => 1,
            OpCode::Call => 3,
            OpCode::Ret => 2,
            OpCode::IfZero => 2,
            OpCode::Goto => 2,
            OpCode::End => 1,
        }
    }
}

/// The operation of the instruction that starts at `pc`, provided that `pc`
/// addresses a tag and that all operand words of the instruction lie inside
/// the stream.
pub open spec fn fetch(code: Seq<i32>, pc: int) -> Result<OpCode, Fault> {
    if pc < 0 || pc >= code.len() {
        Err(Fault::PcOutOfRange)
    } else {
        match OpCode::of_tag(code[pc]) {
            None => Err(Fault::UnknownOpcode(code[pc])),
            Some(op) => if pc + op.width() > code.len() {
                Err(Fault::PcOutOfRange)
            } else {
                Ok(op)
            },
        }
    }
}

/// Decodes the instruction that starts at index `at` of `code`.
pub fn decode_at(code: &[i32], at: usize) -> (op: Result<OpCode, Fault>)
    ensures
        op == fetch(code@, at as int),
{
    if at >= code.len() {
        return Err(Fault::PcOutOfRange);
    }
    let tag = code[at];
    match OpCode::from_tag(tag) {
        None => Err(Fault::UnknownOpcode(tag)),
        Some(op) => {
            if op.len() > code.len() - at {
                Err(Fault::PcOutOfRange)
            } else {
                Ok(op)
            }
        },
    }
}

} // verus!
