use one_hash::repl::{
    assembler_repl_step, interpreter_repl_step, registers_by_number, AsmReplAction, ReplAction,
};

#[test]
fn interpreter_commands_are_recognised() {
    let mut regs: Vec<(usize, String)> = Vec::new();
    assert!(matches!(interpreter_repl_step(&mut regs, "   \n"), ReplAction::Nothing));
    assert!(matches!(interpreter_repl_step(&mut regs, ":quit\n"), ReplAction::Quit));
    assert!(matches!(interpreter_repl_step(&mut regs, ":q"), ReplAction::Quit));
    assert!(matches!(interpreter_repl_step(&mut regs, ":help"), ReplAction::Help));
    assert!(matches!(interpreter_repl_step(&mut regs, ":parse 1#"), ReplAction::Parse(p) if p == "1#"));
    assert!(matches!(interpreter_repl_step(&mut regs, ":run 1##"), ReplAction::Run(p) if p == "1##"));
    assert!(matches!(interpreter_repl_step(&mut regs, "  1#1## \n"), ReplAction::Run(p) if p == "1#1##"));
    assert!(matches!(interpreter_repl_step(&mut regs, ":load prog.1h"), ReplAction::Load(f) if f == "prog.1h"));
    assert!(matches!(interpreter_repl_step(&mut regs, ":regs"), ReplAction::ShowRegisters));
    assert!(matches!(interpreter_repl_step(&mut regs, ":bogus"), ReplAction::Unknown));
}

#[test]
fn interpreter_set_and_clear_registers() {
    let mut regs: Vec<(usize, String)> = Vec::new();
    assert!(matches!(interpreter_repl_step(&mut regs, ":set R3 11#"), ReplAction::SetRegister(3, w) if w == "11#"));
    assert!(matches!(interpreter_repl_step(&mut regs, ":set R1 1"), ReplAction::SetRegister(1, _)));
    assert!(matches!(interpreter_repl_step(&mut regs, ":set R3 #"), ReplAction::SetRegister(3, _)));
    assert_eq!(regs, vec![(1, "1".to_string()), (3, "#".to_string())]);
    assert!(matches!(interpreter_repl_step(&mut regs, ":set Rx 1"), ReplAction::InvalidRegister));
    assert!(matches!(interpreter_repl_step(&mut regs, ":set R1"), ReplAction::SetUsage));
    assert!(matches!(interpreter_repl_step(&mut regs, ":set 1 1"), ReplAction::SetUsage));
    assert!(matches!(interpreter_repl_step(&mut regs, ":set R1 "), ReplAction::SetUsage));
    assert_eq!(registers_by_number(&regs), vec![(1, "1".to_string()), (3, "#".to_string())]);
    let mut shuffled = vec![(9, "1".to_string()), (2, "#".to_string()), (5, "11".to_string())];
    assert_eq!(
        registers_by_number(&shuffled),
        vec![(2, "#".to_string()), (5, "11".to_string()), (9, "1".to_string())]
    );
    assert!(matches!(interpreter_repl_step(&mut shuffled, ":clear"), ReplAction::Cleared));
    assert!(shuffled.is_empty());
}

#[test]
fn assembler_buffer_and_commands() {
    let mut buf = String::new();
    assert!(matches!(assembler_repl_step(&mut buf, "add 1 R1\n"), AsmReplAction::Appended));
    assert!(matches!(assembler_repl_step(&mut buf, "halt\n"), AsmReplAction::Appended));
    assert_eq!(buf, "add 1 R1\nhalt\n");
    assert!(matches!(assembler_repl_step(&mut buf, ".show\n"), AsmReplAction::Show(ls) if ls == vec!["add 1 R1".to_string(), "halt".to_string()]));
    assert!(matches!(assembler_repl_step(&mut buf, " .c \n"), AsmReplAction::Compile));
    assert!(matches!(assembler_repl_step(&mut buf, ".expand"), AsmReplAction::Expand));
    assert!(matches!(assembler_repl_step(&mut buf, ".h"), AsmReplAction::Help));
    assert!(matches!(assembler_repl_step(&mut buf, ".clear"), AsmReplAction::Cleared));
    assert_eq!(buf, "");
    assert!(matches!(assembler_repl_step(&mut buf, ".quit"), AsmReplAction::Quit));
}

#[test]
fn std_case_and_word_facts_hold() {
    assert!(one_hash::assembler::template_programs::lowercase_keeps_commands());
    assert!(one_hash::assembler::macros::at_is_not_word_char());
}
