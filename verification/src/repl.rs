//! The stepping console, without its input and output: what each line typed
//! by the user does to the engine and what is to be printed in answer.
//!
//! A driver reads the lines and prints the answers. Between two instructions
//! of a continued run it may pause for the engine's delay.

use crate::fault::Fault;
use crate::inspect::{listing, live_text, stack_text, status_text};
use crate::machine::{step, Machine, Outcome};
use crate::opcode::fetch;
use crate::text::{append_decimal, decimal};
use crate::vm::Vm;
use vstd::prelude::*;
use vstd::string::{StrSliceExecFns, StringExecFns};

verus! {

/// What a line typed at the console asks for.
#[derive(Clone, Copy, Debug, PartialEq, Eq, Structural)]
pub enum Command {
    /// `n`: execute one instruction.
    Step,
    /// `c`: execute instructions until the program ends.
    Continue,
    /// `#show_status`: switch the printing of the cursors on or off.
    ToggleStatus,
    /// `#show_stack`: switch the printing of the stack on or off.
    ToggleStack,
    /// `#show_code`, `l` or `list`: print the instruction that is next.
    ShowCode,
    /// `dis`: print the disassembly of the program.
    Disassemble,
    /// Anything else: nothing.
    Unknown,
}

/// What the driver of the console does after it has printed an answer.
#[derive(Clone, Copy, Debug, PartialEq, Eq, Structural)]
pub enum Next {
    /// Ask the user for the next line and pass it to `process_input`.
    Prompt,
    /// The program is running on: pause for the engine's delay, if any, and
    /// call `resume`.
    Tick,
    /// The program has ended and its result has been printed: leave.
    Exit,
}

/// The answer to one line, or to one instruction of a continued run.
pub struct Turn {
    /// The lines to print, in order.
    pub lines: Vec<String>,
    /// What to do after printing them.
    pub next: Next,
}

/// What the console stands for: the machine it drives and its two display
/// switches.
pub struct Console {
    /// The state of the engine.
    pub machine: Machine,
    /// Whether the cursors are printed after each command.
    pub show_status: bool,
    /// Whether the stack is printed after each command.
    pub show_stack: bool,
}

/// The characters that count as white space around a command: the code points
/// with the Unicode property `White_Space`.
pub open spec fn is_blank(c: char) -> bool {
    let p = c as u32;
    ||| 0x09 <= p <= 0x0d
    ||| p == 0x20
    ||| p == 0x85
    ||| p == 0xa0
    ||| p == 0x1680
    ||| 0x2000 <= p <= 0x200a
    ||| p == 0x2028
    ||| p == 0x2029
    ||| p == 0x202f
    ||| p == 0x205f
    ||| p == 0x3000
}

/// The line without the white space at its two ends.
pub open spec fn trimmed(line: Seq<char>) -> Seq<char>
    decreases line.len(),
{
    if line.len() == 0 {
        line
    } else if is_blank(line.first()) {
        trimmed(line.drop_first())
    } else if is_blank(line.last()) {
        trimmed(line.drop_last())
    } else {
        line
    }
}

/// The command that a line asks for: the line is compared, without the white
/// space at its ends, with the names of the commands.
pub open spec fn command_of(line: Seq<char>) -> Command {
    let word = trimmed(line);
    if word == "n"@ {
        Command::Step
    } else if word == "c"@ {
        Command::Continue
    } else if word == "#show_status"@ {
        Command::ToggleStatus
    } else if word == "#show_stack"@ {
        Command::ToggleStack
    } else if word == "#show_code"@ || word == "l"@ || word == "list"@ {
        Command::ShowCode
    } else if word == "dis"@ {
        Command::Disassemble
    } else {
        Command::Unknown
    }
}

/// Whether `c` is white space.
fn blank(c: char) -> (b: bool)
    ensures
        b == is_blank(c),
{
    let p = c as u32;
    (0x09 <= p && p <= 0x0d) || p == 0x20 || p == 0x85 || p == 0xa0 || p == 0x1680 || (0x2000 <= p
        && p <= 0x200a) || p == 0x2028 || p == 0x2029 || p == 0x202f || p == 0x205f || p == 0x3000
}

/// Whether the characters of `line` from `from` up to `to` spell `word`.
fn spells(line: &str, from: usize, to: usize, word: &str) -> (same: bool)
    requires
        from <= to <= line@.len(),
    ensures
        same == (line@.subrange(from as int, to as int) == word@),
{
    let n = word.unicode_len();
    if to - from != n {
        return false;
    }
    let mut i: usize = 0;
    while i < n
        invariant
            i <= n,
            n == word@.len(),
            to - from == n,
            from <= to <= line@.len(),
            line@.subrange(from as int, from + i) == word@.subrange(0, i as int),
        decreases n - i,
    {
        if line.get_char(from + i) != word.get_char(i) {
            assert(line@.subrange(from as int, to as int)[i as int] != word@[i as int]);
            return false;
        }
        assert(line@.subrange(from as int, from + i + 1) =~= line@.subrange(
            from as int,
            from + i,
        ).push(line@[from + i]));
        assert(word@.subrange(0, i + 1) =~= word@.subrange(0, i as int).push(word@[i as int]));
        i += 1;
    }
    assert(word@.subrange(0, n as int) =~= word@);
    true
}

/// Reads the command that `line` asks for.
pub fn parse_command(line: &str) -> (cmd: Command)
    ensures
        cmd == command_of(line@),
{
    let len = line.unicode_len();
    let mut from: usize = 0;
    assert(line@.subrange(0, len as int) =~= line@);
    while from < len && blank(line.get_char(from))
        invariant
            from <= len,
            len == line@.len(),
            trimmed(line@) == trimmed(line@.subrange(from as int, len as int)),
        decreases len - from,
    {
        assert(line@.subrange(from as int, len as int).drop_first() =~= line@.subrange(
            from + 1,
            len as int,
        ));
        from += 1;
    }
    let mut to: usize = len;
    while to > from && blank(line.get_char(to - 1))
        invariant
            from <= to <= len,
            len == line@.len(),
            from < len ==> !is_blank(line@[from as int]),
            trimmed(line@) == trimmed(line@.subrange(from as int, to as int)),
        decreases to,
    {
        assert(line@.subrange(from as int, to as int).drop_last() =~= line@.subrange(
            from as int,
            to - 1,
        ));
        to -= 1;
    }
    assert(trimmed(line@) == line@.subrange(from as int, to as int));
    if spells(line, from, to, "n") {
        Command::Step
    } else if spells(line, from, to, "c") {
        Command::Continue
    } else if spells(line, from, to, "#show_status") {
        Command::ToggleStatus
    } else if spells(line, from, to, "#show_stack") {
        Command::ToggleStack
    } else if spells(line, from, to, "#show_code") || spells(line, from, to, "l") || spells(
        line,
        from,
        to,
        "list",
    ) {
        Command::ShowCode
    } else if spells(line, from, to, "dis") {
        Command::Disassemble
    } else {
        Command::Unknown
    }
}

/// What the console gives back: its new state, the lines to print and what the
/// driver does next.
pub struct Answer {
    /// The console after the command.
    pub console: Console,
    /// The lines to print, in order.
    pub lines: Seq<Seq<char>>,
    /// What the driver does after printing them.
    pub next: Next,
}

/// The text of a switch position.
pub open spec fn switch_text(on: bool) -> Seq<char> {
    if on {
        "true"@
    } else {
        "false"@
    }
}

/// The lines that the display switches ask for after a command: the cursors
/// if `show_status` is on, then the stack if `show_stack` is on.
pub open spec fn report(c: Console) -> Seq<Seq<char>> {
    (if c.show_status {
        seq![status_text(c.machine)]
    } else {
        Seq::empty()
    }) + (if c.show_stack {
        seq![stack_text(c.machine)]
    } else {
        Seq::empty()
    })
}

/// The answer to a command that leaves the program running: its own lines,
/// then the report, then the next prompt.
pub open spec fn prompt_again(c: Console, lines: Seq<Seq<char>>) -> Answer {
    Answer { console: c, lines: lines + report(c), next: Next::Prompt }
}

/// The answer once the program has ended: the result is taken off the stack
/// and printed, and the session is over. A program that ends on an empty
/// stack has no result, which is a fault.
pub open spec fn finish(c: Console) -> Result<Answer, Fault> {
    if c.machine.stack.len() == 0 {
        Err(Fault::StackUnderflow)
    } else {
        Ok(
            Answer {
                console: Console {
                    machine: Machine { stack: c.machine.below(1), ..c.machine },
                    ..c
                },
                lines: seq!["Result: "@ + decimal(c.machine.top(0) as int)],
                next: Next::Exit,
            },
        )
    }
}

/// The answer to one instruction. If the instruction was `End` the session
/// finishes. Otherwise a single step is followed by the report and a prompt,
/// and a step of a continued run by the next step.
pub open spec fn stepped(c: Console, continued: bool) -> Result<Answer, Fault> {
    match step(c.machine) {
        Outcome::Fault(f) => Err(f),
        Outcome::Halt => finish(c),
        Outcome::Next(m) => {
            let moved = Console { machine: m, ..c };
            if continued {
                Ok(Answer { console: moved, lines: Seq::empty(), next: Next::Tick })
            } else {
                Ok(prompt_again(moved, Seq::empty()))
            }
        },
    }
}

/// The answer of the console in state `c` to the command `cmd`.
pub open spec fn respond(c: Console, cmd: Command) -> Result<Answer, Fault> {
    match cmd {
        Command::Step => stepped(c, false),
        Command::Continue => stepped(c, true),
        Command::ToggleStatus => {
            let on = !c.show_status;
            Ok(prompt_again(Console { show_status: on, ..c }, seq!["ShowStatus: "@ + switch_text(on)]))
        },
        Command::ToggleStack => {
            let on = !c.show_stack;
            Ok(prompt_again(Console { show_stack: on, ..c }, seq!["ShowStack: "@ + switch_text(on)]))
        },
        Command::ShowCode => match fetch(c.machine.code, c.machine.pc as int) {
            Err(f) => Err(f),
            Ok(op) => match live_text(c.machine, op) {
                Err(f) => Err(f),
                Ok(text) => Ok(prompt_again(c, seq![text])),
            },
        },
        Command::Disassemble => match listing(c.machine.code) {
            Err(f) => Err(f),
            Ok(lines) => Ok(prompt_again(c, lines)),
        },
        Command::Unknown => Ok(prompt_again(c, Seq::empty())),
    }
}

/// Whether a console that was in state `before` has given the answer
/// `expected`: on success it is in the expected state and `turn` holds the
/// expected lines and what is next; on a fault it is as it was.
pub open spec fn answered(
    before: Console,
    expected: Result<Answer, Fault>,
    after: Console,
    turn: Result<Turn, Fault>,
) -> bool {
    match expected {
        Ok(answer) => turn matches Ok(t) && after == answer.console && t.lines.deep_view()
            == answer.lines && t.next == answer.next,
        Err(f) => turn matches Err(e) && e == f && after == before,
    }
}

/// The stepping console. It holds the engine for the length of a session.
pub struct Repl<'a> {
    /// The engine that the session drives.
    pub vm: &'a mut Vm,
    /// Whether the cursors are printed after each command.
    pub show_status: bool,
    /// Whether the stack is printed after each command.
    pub show_stack: bool,
}

impl<'a> View for Repl<'a> {
    type V = Console;

    open spec fn view(&self) -> Console {
        Console { machine: self.vm@, show_status: self.show_status, show_stack: self.show_stack }
    }
}

/// The text of a switch position.
fn switch_str(on: bool) -> (s: &'static str)
    ensures
        s@ == switch_text(on),
{
    if on {
        "true"
    } else {
        "false"
    }
}

impl<'a> Repl<'a> {
    /// The delay of the engine that the console holds.
    pub open spec fn delay(&self) -> u64 {
        self.vm.delay()
    }

    /// A console on `vm`, with both display switches off.
    ///
    /// The console holds `vm` from now on: the engine is, when the session is
    /// over, as the console has left it.
    pub fn new(vm: &'a mut Vm) -> (repl: Repl<'a>)
        ensures
            repl@ == (Console { machine: old(vm)@, show_status: false, show_stack: false }),
            repl.delay() == old(vm).delay(),
            *final(repl.vm) == *final(vm),
    {
        Repl { vm, show_status: false, show_stack: false }
    }

    /// The delay, in milliseconds, for which the driver pauses at a
    /// [`Next::Tick`].
    pub fn sleep_ms(&self) -> (ms: u64)
        ensures
            ms == self.delay(),
    {
        self.vm.sleep_ms()
    }

    /// Ends a command that leaves the program running: adds the report to the
    /// lines of the command.
    fn close(&self, lines: Vec<String>) -> (turn: Turn)
        ensures
            turn.lines.deep_view() == lines.deep_view() + report(self@),
            turn.next == Next::Prompt,
    {
        let mut lines = lines;
        let ghost own = lines.deep_view();
        if self.show_status {
            let status = self.vm.show_exec_status();
            lines.push(status);
        }
        let ghost with_status = lines.deep_view();
        assert(with_status =~= own + (if self.show_status {
            seq![status_text(self@.machine)]
        } else {
            Seq::empty()
        }));
        if self.show_stack {
            let stack = self.vm.show_stack();
            lines.push(stack);
        }
        assert(lines.deep_view() =~= with_status + (if self.show_stack {
            seq![stack_text(self@.machine)]
        } else {
            Seq::empty()
        }));
        assert(lines.deep_view() =~= own + report(self@));
        Turn { lines, next: Next::Prompt }
    }

    /// Executes one instruction and answers for it.
    fn one_step(&mut self, continued: bool) -> (turn: Result<Turn, Fault>)
        ensures
            answered(old(self)@, stepped(old(self)@, continued), final(self)@, turn),
            final(self).delay() == old(self).delay(),
            *final(final(self).vm) == *final(old(self).vm),
    {
        let stop = self.vm.exec_op()?;
        if stop {
            let res = self.vm.get_result()?;
            let mut line = String::new();
            line.append("Result: ");
            append_decimal(&mut line, res as i64);
            let mut lines: Vec<String> = Vec::new();
            lines.push(line);
            assert(lines.deep_view() =~= seq!["Result: "@ + decimal(res as int)]);
            Ok(Turn { lines, next: Next::Exit })
        } else if continued {
            let lines: Vec<String> = Vec::new();
            assert(lines.deep_view() =~= Seq::<Seq<char>>::empty());
            Ok(Turn { lines, next: Next::Tick })
        } else {
            let lines: Vec<String> = Vec::new();
            assert(lines.deep_view() =~= Seq::<Seq<char>>::empty());
            Ok(self.close(lines))
        }
    }

    /// Answers one line typed by the user: carries out the command that the
    /// line asks for and says what to print and what to do next.
    ///
    /// A fault of the engine ends the command and leaves the console as it
    /// was.
    pub fn process_input(&mut self, input: &str) -> (turn: Result<Turn, Fault>)
        ensures
            answered(old(self)@, respond(old(self)@, command_of(input@)), final(self)@, turn),
            final(self).delay() == old(self).delay(),
            *final(final(self).vm) == *final(old(self).vm),
    {
        match parse_command(input) {
            Command::Step => self.one_step(false),
            Command::Continue => self.one_step(true),
            Command::ToggleStatus => {
                self.show_status = !self.show_status;
                let mut line = String::new();
                line.append("ShowStatus: ");
                line.append(switch_str(self.show_status));
                let mut lines: Vec<String> = Vec::new();
                lines.push(line);
                assert(lines.deep_view() =~= seq!["ShowStatus: "@ + switch_text(self.show_status)]);
                Ok(self.close(lines))
            },
            Command::ToggleStack => {
                self.show_stack = !self.show_stack;
                let mut line = String::new();
                line.append("ShowStack: ");
                line.append(switch_str(self.show_stack));
                let mut lines: Vec<String> = Vec::new();
                lines.push(line);
                assert(lines.deep_view() =~= seq!["ShowStack: "@ + switch_text(self.show_stack)]);
                Ok(self.close(lines))
            },
            Command::ShowCode => {
                let line = self.vm.show_code_with_data()?;
                let mut lines: Vec<String> = Vec::new();
                lines.push(line);
                assert(lines.deep_view() =~= seq![line@]);
                Ok(self.close(lines))
            },
            Command::Disassemble => {
                let lines = self.vm.disassemble()?;
                Ok(self.close(lines))
            },
            Command::Unknown => {
                let lines: Vec<String> = Vec::new();
                assert(lines.deep_view() =~= Seq::<Seq<char>>::empty());
                Ok(self.close(lines))
            },
        }
    }

    /// Goes on with a continued run after a [`Next::Tick`]: executes the next
    /// instruction and answers for it.
    pub fn resume(&mut self) -> (turn: Result<Turn, Fault>)
        ensures
            answered(old(self)@, stepped(old(self)@, true), final(self)@, turn),
            final(self).delay() == old(self).delay(),
            *final(final(self).vm) == *final(old(self).vm),
    {
        self.one_step(true)
    }
}

} // verus!
