use stack_vm::repl::{parse_command, Command, Next, Repl};
use stack_vm::{Fault, Vm};

fn fib27() -> Vec<i32> {
    vec![
        0, 27, 6, 4, 1, 10, 3, 0, 8, 28, 3, 0, 0, -1, 1, 8, 25, 3, 0, 0, -1, 1, 6, -16, 1, 3, 1, 0,
        -2, 1, 6, -24, 1, 1, 7, 1, 0, 0, 7, 1, 0, 1, 7, 1,
    ]
}

fn no_lines() -> Vec<String> {
    Vec::new()
}

#[test]
fn test_match() {
    let si = String::from("si");
    match si.as_str() {
        "si" => {
            println!(")__ si")
        }
        f => {
            println!("FF: {}", f)
        }
    }
}

#[test]
fn repl_run() {
    let mut vm = Vm::new(fib27(), 0);
    let mut repl = Repl::new(&mut vm);
    let mut turn = repl.process_input("c\n").unwrap();
    while turn.next == Next::Tick {
        assert!(turn.lines.is_empty());
        turn = repl.resume().unwrap();
    }
    assert_eq!(turn.next, Next::Exit);
    assert_eq!(turn.lines, vec!["Result: 196418"]);
}

#[test]
fn commands_by_name() {
    assert_eq!(parse_command("n"), Command::Step);
    assert_eq!(parse_command("c"), Command::Continue);
    assert_eq!(parse_command("#show_status"), Command::ToggleStatus);
    assert_eq!(parse_command("#show_stack"), Command::ToggleStack);
    assert_eq!(parse_command("#show_code"), Command::ShowCode);
    assert_eq!(parse_command("l"), Command::ShowCode);
    assert_eq!(parse_command("list"), Command::ShowCode);
    assert_eq!(parse_command("dis"), Command::Disassemble);
}

#[test]
fn commands_are_trimmed() {
    assert_eq!(parse_command("n\n"), Command::Step);
    assert_eq!(parse_command("  n\r\n"), Command::Step);
    assert_eq!(parse_command("\t dis \t"), Command::Disassemble);
    assert_eq!(parse_command("\u{a0}list\u{3000}\u{2028}"), Command::ShowCode);
    assert_eq!(parse_command("\u{85}\u{1680}\u{2000}c\u{200a}\u{2029}\u{202f}\u{205f}"), Command::Continue);
    assert_eq!(parse_command("\u{b}\u{c}#show_stack"), Command::ToggleStack);
}

#[test]
fn white_space_is_what_trim_removes() {
    let mut c = '\0';
    loop {
        let before = format!("{}n", c);
        let after = format!("n{}", c);
        let expected = if c.is_whitespace() { Command::Step } else { Command::Unknown };
        assert_eq!(parse_command(&before), expected, "{:?}", c);
        assert_eq!(parse_command(&after), expected, "{:?}", c);
        assert_eq!(before.trim() == "n", c.is_whitespace());
        if c == char::MAX {
            break;
        }
        c = char::from_u32(c as u32 + 1).unwrap_or('\u{e000}');
    }
}

#[test]
fn other_lines_are_no_commands() {
    for line in ["", "\n", "   ", "x", "N", "nn", "n n", "li st", "#show", "dis.", "show_code", "é", "\u{200b}n", "\u{1c}n", "c\u{feff}"] {
        assert_eq!(parse_command(line), Command::Unknown, "{:?}", line);
        assert_eq!(line.trim() == "n" || line.trim() == "c", false);
    }
}

#[test]
fn single_steps_until_the_end() {
    let mut vm = Vm::new(vec![0, 20, 0, 22, 1, 10], 0);
    let mut repl = Repl::new(&mut vm);
    for _ in 0..3 {
        let turn = repl.process_input("n\n").unwrap();
        assert_eq!(turn.next, Next::Prompt);
        assert_eq!(turn.lines, no_lines());
    }
    let turn = repl.process_input("n\n").unwrap();
    assert_eq!(turn.next, Next::Exit);
    assert_eq!(turn.lines, vec!["Result: 42"]);
    assert_eq!(vm.sp(), 0);
    assert_eq!(vm.pc(), 5);
}

#[test]
fn switches_toggle_and_report() {
    let mut vm = Vm::new(vec![0, 20, 0, -22, 1, 10], 0);
    let mut repl = Repl::new(&mut vm);
    let turn = repl.process_input("#show_status\n").unwrap();
    assert_eq!(turn.lines, vec!["ShowStatus: true", "PC:0, SP:0"]);
    assert_eq!(turn.next, Next::Prompt);
    let turn = repl.process_input("n").unwrap();
    assert_eq!(turn.lines, vec!["PC:2, SP:1"]);
    let turn = repl.process_input("#show_stack").unwrap();
    assert_eq!(turn.lines, vec!["ShowStack: true", "PC:2, SP:1", "Stack: [20]"]);
    let turn = repl.process_input("n").unwrap();
    assert_eq!(turn.lines, vec!["PC:4, SP:2", "Stack: [20, -22]"]);
    let turn = repl.process_input("#show_status").unwrap();
    assert_eq!(turn.lines, vec!["ShowStatus: false", "Stack: [20, -22]"]);
    let turn = repl.process_input("what?").unwrap();
    assert_eq!(turn.lines, vec!["Stack: [20, -22]"]);
    assert_eq!(turn.next, Next::Prompt);
    let turn = repl.process_input("#show_stack").unwrap();
    assert_eq!(turn.lines, vec!["ShowStack: false"]);
    let turn = repl.process_input("").unwrap();
    assert_eq!(turn.lines, no_lines());
    let turn = repl.process_input("n").unwrap();
    assert_eq!(turn.lines, no_lines());
    let turn = repl.process_input("n").unwrap();
    assert_eq!(turn.lines, vec!["Result: -2"]);
    assert_eq!(turn.next, Next::Exit);
}

#[test]
fn list_shows_the_next_instruction() {
    let mut vm = Vm::new(vec![0, 20, 0, -22, 1, 10], 0);
    let mut repl = Repl::new(&mut vm);
    for line in ["l", "list", "#show_code"] {
        let turn = repl.process_input(line).unwrap();
        assert_eq!(turn.lines, vec!["Cst(20)"]);
        assert_eq!(turn.next, Next::Prompt);
    }
    repl.process_input("n").unwrap();
    repl.process_input("n").unwrap();
    repl.process_input("#show_status").unwrap();
    let turn = repl.process_input("l").unwrap();
    assert_eq!(turn.lines, vec!["Add >> [-22:left,20:right]", "PC:4, SP:2"]);
}

#[test]
fn dis_prints_the_disassembly() {
    let mut vm = Vm::new(vec![0, 20, 0, -22, 1, 10], 2);
    let mut repl = Repl::new(&mut vm);
    repl.process_input("#show_stack").unwrap();
    let turn = repl.process_input("dis\n").unwrap();
    assert_eq!(
        turn.lines,
        vec!["[0, 20, 0, -22, 1, 10]", ".Cst 20", ".Cst -22", "Add SP-1, SP-2", "End", "Stack: []"]
    );
    assert_eq!(turn.next, Next::Prompt);
}

#[test]
fn continue_ticks_once_for_each_instruction() {
    let mut vm = Vm::new(vec![0, 20, 0, 22, 1, 10], 0);
    vm.set_sleep_ms(5);
    let mut repl = Repl::new(&mut vm);
    assert_eq!(repl.sleep_ms(), 5);
    repl.process_input("#show_status").unwrap();
    let turn = repl.process_input(" c ").unwrap();
    assert_eq!((turn.lines, turn.next), (no_lines(), Next::Tick));
    let turn = repl.resume().unwrap();
    assert_eq!((turn.lines, turn.next), (no_lines(), Next::Tick));
    let turn = repl.resume().unwrap();
    assert_eq!((turn.lines, turn.next), (no_lines(), Next::Tick));
    let turn = repl.resume().unwrap();
    assert_eq!(turn.next, Next::Exit);
    assert_eq!(turn.lines, vec!["Result: 42"]);
}

#[test]
fn faults_end_the_command_and_change_nothing() {
    let mut vm = Vm::new(vec![0, 20, 77], 0);
    let mut repl = Repl::new(&mut vm);
    repl.process_input("n").unwrap();
    assert_eq!(repl.process_input("n").err(), Some(Fault::UnknownOpcode(77)));
    assert_eq!(repl.process_input("c").err(), Some(Fault::UnknownOpcode(77)));
    assert_eq!(repl.resume().err(), Some(Fault::UnknownOpcode(77)));
    assert_eq!(repl.process_input("l").err(), Some(Fault::UnknownOpcode(77)));
    assert_eq!(repl.process_input("dis").err(), Some(Fault::UnknownOpcode(77)));
    let turn = repl.process_input("#show_stack").unwrap();
    assert_eq!(turn.lines, vec!["ShowStack: true", "Stack: [20]"]);
    assert_eq!(vm.pc(), 2);
}

#[test]
fn end_on_an_empty_stack_has_no_result() {
    let mut vm = Vm::new(vec![10], 0);
    let mut repl = Repl::new(&mut vm);
    assert_eq!(repl.process_input("n").err(), Some(Fault::StackUnderflow));
    assert_eq!(repl.process_input("c").err(), Some(Fault::StackUnderflow));
}
