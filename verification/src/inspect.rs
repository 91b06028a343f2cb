//! Introspection: the engine's state and program as lines of text.
//!
//! Nothing here changes the engine.

use crate::fault::Fault;
use crate::machine::Machine;
use crate::opcode::{decode_at, fetch, OpCode};
use crate::text::{append_decimal, decimal};
use crate::vm::Vm;
use vstd::prelude::*;
use vstd::string::StringExecFns;

verus! {

/// The text of the instruction `op` that starts at `pc`: its mnemonic and its
/// operand words.
pub open spec fn mnemonic(code: Seq<i32>, pc: int, op: OpCode) -> Seq<char> {
    match op {
        OpCode::Cst => ".Cst "@ + decimal(code[pc + 1] as int),
        OpCode::Add => "Add SP-1, SP-2"@,
        OpCode::Mul => "Mul SP-1, SP-2"@,
        OpCode::Var => "Var "@ + decimal(code[pc + 1] as int),
        OpCode::Pop => "Pop"@,
        OpCode::Swap => "Swap SP-1, SP-2"@,
        OpCode::Call => "Call PC+"@ + decimal(code[pc + 1] as int) + ", arity:"@ + decimal(
            code[pc + 2] as int,
        ),
        OpCode::Ret => "Ret "@ + decimal(code[pc + 1] as int),
        OpCode::IfZero => "IfZero SP-1, PC+="@ + decimal(code[pc + 1] as int),
        OpCode::Goto => "Goto "@ + decimal(code[pc + 1] as int),
        OpCode::End => "End"@,
    }
}

/// The text of the instruction `op` under the program counter of `m`, with the
/// values it is about to work on: the stack words it will read and the places
/// it may jump to. It is a fault to ask for stack words that are not there.
pub open spec fn live_text(m: Machine, op: OpCode) -> Result<Seq<char>, Fault> {
    let n = m.stack.len();
    let pc = m.pc as int;
    match op {
        OpCode::Cst => Ok("Cst("@ + decimal(m.operand(1) as int) + ")"@),
        OpCode::Add => {
            if n < 2 {
                Err(Fault::StackUnderflow)
            } else {
                Ok(
                    "Add >> ["@ + decimal(m.top(0) as int) + ":left,"@ + decimal(m.top(1) as int)
                        + ":right]"@,
                )
            }
        },
        OpCode::Mul => {
            if n < 2 {
                Err(Fault::StackUnderflow)
            } else {
                Ok(
                    "Mul >> ["@ + decimal(m.top(0) as int) + ":left,"@ + decimal(m.top(1) as int)
                        + ":right]"@,
                )
            }
        },
        OpCode::Var => {
            let i = m.operand(1);
            if i < 0 {
                Err(Fault::NegativeOperand(i))
            } else if i >= n {
                Err(Fault::StackUnderflow)
            } else {
                Ok(
                    "Var("@ + decimal(i as int) + ":arity) >> ["@ + decimal(m.top(i as int) as int)
                        + ":vardata]"@,
                )
            }
        },
        OpCode::Pop => Ok("Pop"@),
        OpCode::Swap => {
            if n < 2 {
                Err(Fault::StackUnderflow)
            } else {
                Ok(
                    "Swap >> ["@ + decimal(m.top(0) as int) + ":left,"@ + decimal(m.top(1) as int)
                        + ":right]"@,
                )
            }
        },
        OpCode::Call => Ok(
            "Call("@ + decimal(m.operand(1) as int) + ":offset,"@ + decimal(m.operand(2) as int)
                + ":arity) >> ["@ + decimal(pc + m.operand(1)) + ":next_pc,"@ + decimal(pc + 3)
                + ":res_addr]"@,
        ),
        OpCode::Ret => {
            let arity = m.operand(1);
            if arity < 0 {
                Err(Fault::NegativeOperand(arity))
            } else if n < arity + 2 {
                Err(Fault::StackUnderflow)
            } else {
                Ok(
                    "Ret("@ + decimal(arity as int) + ":arity) >> ["@ + decimal(m.top(0) as int)
                        + ":res,"@ + decimal(m.top(arity + 1) as int) + ":next_pc]"@,
                )
            }
        },
        OpCode::IfZero => {
            if n < 1 {
                Err(Fault::StackUnderflow)
            } else {
                Ok(
                    "IfZero("@ + decimal(m.operand(1) as int) + ":offset) >> ["@ + decimal(
                        m.top(0) as int,
                    ) + ":cond, "@ + decimal(pc + m.operand(1)) + ":to]"@,
                )
            }
        },
        OpCode::Goto => Ok("Goto("@ + decimal(m.operand(1) as int) + ":offset)"@),
        OpCode::End => Ok("End"@),
    }
}

/// The numerals of `words`, in order, separated by a comma and a space.
pub open spec fn joined(words: Seq<i32>) -> Seq<char>
    decreases words.len(),
{
    if words.len() == 0 {
        Seq::empty()
    } else if words.len() == 1 {
        decimal(words[0] as int)
    } else {
        joined(words.drop_last()) + ", "@ + decimal(words.last() as int)
    }
}

/// The words as a bracketed list: `[1, -2, 3]`.
pub open spec fn list_text(words: Seq<i32>) -> Seq<char> {
    "["@ + joined(words) + "]"@
}

/// The two cursors of `m` as text.
pub open spec fn status_text(m: Machine) -> Seq<char> {
    "PC:"@ + decimal(m.pc as int) + ", SP:"@ + decimal(m.stack.len() as int)
}

/// The live stack of `m` as text, bottom first.
pub open spec fn stack_text(m: Machine) -> Seq<char> {
    "Stack: "@ + list_text(m.stack)
}

/// The lines of the instructions of `code` from index `pc` to its end, each
/// instruction starting where the one before it ends. Fails at the first word
/// reached that does not start an instruction lying inside the stream.
pub open spec fn listing_from(code: Seq<i32>, pc: int) -> Result<Seq<Seq<char>>, Fault>
    decreases code.len() - pc,
{
    if pc >= code.len() {
        Ok(Seq::empty())
    } else {
        match fetch(code, pc) {
            Err(f) => Err(f),
            Ok(op) => with_lines(seq![mnemonic(code, pc, op)], listing_from(code, pc + op.width())),
        }
    }
}

/// The listing `rest` after the lines `first`.
pub open spec fn with_lines(first: Seq<Seq<char>>, rest: Result<Seq<Seq<char>>, Fault>) -> Result<
    Seq<Seq<char>>,
    Fault,
> {
    match rest {
        Ok(lines) => Ok(first + lines),
        Err(f) => Err(f),
    }
}

/// The disassembly of `code`: one line with all its words, then one line for
/// each instruction, decoded from index 0.
pub open spec fn listing(code: Seq<i32>) -> Result<Seq<Seq<char>>, Fault> {
    with_lines(seq![list_text(code)], listing_from(code, 0))
}

/// The number of words that the instructions of `code` from index `pc`
/// occupy: the sum of their widths, as far as they can be decoded.
pub open spec fn covered_words(code: Seq<i32>, pc: int) -> int
    decreases code.len() - pc,
{
    if pc >= code.len() {
        0
    } else {
        match fetch(code, pc) {
            Err(_) => 0,
            Ok(op) => op.width() + covered_words(code, pc + op.width()),
        }
    }
}

/// A stream is well formed if it can be disassembled: it is a row of whole
/// instructions.
pub open spec fn well_formed(code: Seq<i32>) -> bool {
    listing_from(code, 0) is Ok
}

/// In a well-formed stream the widths of the instructions add up to the
/// length of the stream: decoding instruction after instruction ends exactly
/// where the stream ends.
pub proof fn lemma_disassembly_covers_stream(code: Seq<i32>)
    requires
        well_formed(code),
    ensures
        covered_words(code, 0) == code.len(),
{
    lemma_listing_covers_rest(code, 0);
}

/// What can be disassembled from `pc` extends exactly to the end of the
/// stream.
proof fn lemma_listing_covers_rest(code: Seq<i32>, pc: int)
    requires
        0 <= pc <= code.len(),
        listing_from(code, pc) is Ok,
    ensures
        pc + covered_words(code, pc) == code.len(),
    decreases code.len() - pc,
{
    if pc < code.len() {
        let op = fetch(code, pc)->Ok_0;
        lemma_listing_covers_rest(code, pc + op.width());
    }
}

/// Appends `words` as a bracketed list to `out`.
fn append_list(out: &mut String, words: &[i32])
    ensures
        final(out)@ == old(out)@ + list_text(words@),
{
    out.append("[");
    let mut i: usize = 0;
    while i < words.len()
        invariant
            i <= words@.len(),
            out@ == old(out)@ + "["@ + joined(words@.subrange(0, i as int)),
        decreases words@.len() - i,
    {
        let ghost before = words@.subrange(0, i as int);
        let ghost after = words@.subrange(0, i + 1);
        assert(after.drop_last() =~= before);
        if i > 0 {
            out.append(", ");
        }
        append_decimal(out, words[i] as i64);
        assert(out@ =~= old(out)@ + "["@ + joined(after));
        i += 1;
    }
    assert(words@.subrange(0, i as int) =~= words@);
    out.append("]");
    assert(out@ =~= old(out)@ + list_text(words@));
}

/// Writes out the instruction `op` that starts at index `at` of `code`.
fn render(code: &[i32], at: usize, op: OpCode) -> (text: String)
    requires
        fetch(code@, at as int) == Ok::<OpCode, Fault>(op),
    ensures
        text@ == mnemonic(code@, at as int, op),
{
    assert(at + op.width() <= code.len());
    let mut out = String::new();
    match op {
        OpCode::Cst => {
            out.append(".Cst ");
            append_decimal(&mut out, code[at + 1] as i64);
        },
        OpCode::Add => {
            out.append("Add SP-1, SP-2");
        },
        OpCode::Mul => {
            out.append("Mul SP-1, SP-2");
        },
        OpCode::Var => {
            out.append("Var ");
            append_decimal(&mut out, code[at + 1] as i64);
        },
        OpCode::Pop => {
            out.append("Pop");
        },
        OpCode::Swap => {
            out.append("Swap SP-1, SP-2");
        },
        OpCode::Call => {
            out.append("Call PC+");
            append_decimal(&mut out, code[at + 1] as i64);
            out.append(", arity:");
            append_decimal(&mut out, code[at + 2] as i64);
        },
        OpCode::Ret => {
            out.append("Ret ");
            append_decimal(&mut out, code[at + 1] as i64);
        },
        OpCode::IfZero => {
            out.append("IfZero SP-1, PC+=");
            append_decimal(&mut out, code[at + 1] as i64);
        },
        OpCode::Goto => {
            out.append("Goto ");
            append_decimal(&mut out, code[at + 1] as i64);
        },
        OpCode::End => {
            out.append("End");
        },
    }
    assert(out@ =~= mnemonic(code@, at as int, op));
    out
}

impl Vm {
    /// The instruction that starts at `pc` as text: its mnemonic and its
    /// operand words. Fails as fetching that instruction would.
    pub fn show_code(&self, pc: i32) -> (text: Result<String, Fault>)
        ensures
            match fetch(self@.code, pc as int) {
                Ok(op) => text matches Ok(s) && s@ == mnemonic(self@.code, pc as int, op),
                Err(f) => text matches Err(e) && e == f,
            },
    {
        if pc < 0 {
            return Err(Fault::PcOutOfRange);
        }
        let code = self.code();
        let op = decode_at(code, pc as usize)?;
        Ok(render(code, pc as usize, op))
    }

    /// The instruction under the program counter as text, with the values it
    /// is about to work on. Fails as fetching that instruction would, or with
    /// the fault of reading stack words that are not there.
    pub fn show_code_with_data(&self) -> (text: Result<String, Fault>)
        ensures
            match fetch(self@.code, self@.pc as int) {
                Ok(op) => match live_text(self@, op) {
                    Ok(t) => text matches Ok(s) && s@ == t,
                    Err(f) => text matches Err(e) && e == f,
                },
                Err(f) => text matches Err(e) && e == f,
            },
    {
        let pc = self.pc();
        let sp = self.sp();
        let op = self.op_code(pc)?;
        let mut out = String::new();
        match op {
            OpCode::Cst => {
                out.append("Cst(");
                append_decimal(&mut out, self.operand(pc, 1) as i64);
                out.append(")");
            },
            OpCode::Add => {
                if sp < 2 {
                    return Err(Fault::StackUnderflow);
                }
                out.append("Add >> [");
                append_decimal(&mut out, self.peek_stack(0) as i64);
                out.append(":left,");
                append_decimal(&mut out, self.peek_stack(1) as i64);
                out.append(":right]");
            },
            OpCode::Mul => {
                if sp < 2 {
                    return Err(Fault::StackUnderflow);
                }
                out.append("Mul >> [");
                append_decimal(&mut out, self.peek_stack(0) as i64);
                out.append(":left,");
                append_decimal(&mut out, self.peek_stack(1) as i64);
                out.append(":right]");
            },
            OpCode::Var => {
                let i = self.operand(pc, 1);
                if i < 0 {
                    return Err(Fault::NegativeOperand(i));
                }
                if i as usize >= sp {
                    return Err(Fault::StackUnderflow);
                }
                out.append("Var(");
                append_decimal(&mut out, i as i64);
                out.append(":arity) >> [");
                append_decimal(&mut out, self.peek_stack(i as usize) as i64);
                out.append(":vardata]");
            },
            OpCode::Pop => {
                out.append("Pop");
            },
            OpCode::Swap => {
                if sp < 2 {
                    return Err(Fault::StackUnderflow);
                }
                out.append("Swap >> [");
                append_decimal(&mut out, self.peek_stack(0) as i64);
                out.append(":left,");
                append_decimal(&mut out, self.peek_stack(1) as i64);
                out.append(":right]");
            },
            OpCode::Call => {
                let offset = self.operand(pc, 1);
                let arity = self.operand(pc, 2);
                out.append("Call(");
                append_decimal(&mut out, offset as i64);
                out.append(":offset,");
                append_decimal(&mut out, arity as i64);
                out.append(":arity) >> [");
                append_decimal(&mut out, pc as i64 + offset as i64);
                out.append(":next_pc,");
                append_decimal(&mut out, pc as i64 + 3);
                out.append(":res_addr]");
            },
            OpCode::Ret => {
                let arity = self.operand(pc, 1);
                if arity < 0 {
                    return Err(Fault::NegativeOperand(arity));
                }
                if sp < 2 || sp - 2 < arity as usize {
                    return Err(Fault::StackUnderflow);
                }
                out.append("Ret(");
                append_decimal(&mut out, arity as i64);
                out.append(":arity) >> [");
                append_decimal(&mut out, self.peek_stack(0) as i64);
                out.append(":res,");
                append_decimal(&mut out, self.peek_stack(arity as usize + 1) as i64);
                out.append(":next_pc]");
            },
            OpCode::IfZero => {
                let offset = self.operand(pc, 1);
                if sp < 1 {
                    return Err(Fault::StackUnderflow);
                }
                out.append("IfZero(");
                append_decimal(&mut out, offset as i64);
                out.append(":offset) >> [");
                append_decimal(&mut out, self.peek_stack(0) as i64);
                out.append(":cond, ");
                append_decimal(&mut out, pc as i64 + offset as i64);
                out.append(":to]");
            },
            OpCode::Goto => {
                out.append("Goto(");
                append_decimal(&mut out, self.operand(pc, 1) as i64);
                out.append(":offset)");
            },
            OpCode::End => {
                out.append("End");
            },
        }
        assert(live_text(self@, op) matches Ok(t) && out@ =~= t);
        Ok(out)
    }

    /// The program counter and the stack pointer as text.
    pub fn show_exec_status(&self) -> (text: String)
        ensures
            text@ == status_text(self@),
    {
        let mut out = String::new();
        out.append("PC:");
        append_decimal(&mut out, self.pc() as i64);
        out.append(", SP:");
        append_decimal(&mut out, self.sp() as i64);
        assert(out@ =~= status_text(self@));
        out
    }

    /// The live words of the stack as text, bottom first.
    pub fn show_stack(&self) -> (text: String)
        ensures
            text@ == stack_text(self@),
    {
        let mut out = String::new();
        out.append("Stack: ");
        append_list(&mut out, self.stack());
        assert(out@ =~= stack_text(self@));
        out
    }

    /// The disassembly of the whole instruction stream: one line with all its
    /// words, then one line for each instruction, decoded from index 0 with
    /// each instruction starting where the one before it ends.
    ///
    /// Succeeds exactly on a well-formed stream.
    pub fn disassemble(&self) -> (lines: Result<Vec<String>, Fault>)
        ensures
            match listing(self@.code) {
                Ok(l) => lines matches Ok(v) && v.deep_view() == l,
                Err(f) => lines matches Err(e) && e == f,
            },
            lines is Ok <==> well_formed(self@.code),
    {
        let code = self.code();
        let mut lines: Vec<String> = Vec::new();
        let mut words = String::new();
        append_list(&mut words, code);
        lines.push(words);
        assert(lines.deep_view() =~= seq![list_text(code@)]);
        let mut pc: usize = 0;
        while pc < code.len()
            invariant
                pc <= code@.len(),
                code@ == self@.code,
                lines.deep_view().len() >= 1,
                listing(code@) == with_lines(lines.deep_view(), listing_from(code@, pc as int)),
                listing_from(code@, 0) is Ok <==> listing_from(code@, pc as int) is Ok,
            decreases code@.len() - pc,
        {
            let op = decode_at(code, pc)?;
            let ghost before = lines.deep_view();
            let line = render(code, pc, op);
            lines.push(line);
            assert(lines.deep_view() =~= before + seq![mnemonic(code@, pc as int, op)]);
            assert(before + (seq![mnemonic(code@, pc as int, op)] + listing_from(
                code@,
                pc + op.width(),
            )->Ok_0) =~= lines.deep_view() + listing_from(code@, pc + op.width())->Ok_0);
            pc += op.len();
        }
        assert(lines.deep_view() + Seq::<Seq<char>>::empty() =~= lines.deep_view());
        Ok(lines)
    }
}

} // verus!
