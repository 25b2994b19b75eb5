use one_hash::assembler::compile;
use one_hash::{assemble, expand_only, Instruction};

#[test]
fn test_simple_compile() {
    let code = compile("add 1 R1\nadd # R2").unwrap();
    assert_eq!(code, "1#11##");
}

#[test]
fn test_labels() {
    let code = compile("start:\n    add 1 R1\n    goto start").unwrap();
    // add 1 R1 = 1#, goto start (backward 1) = 1####
    assert_eq!(code, "1#1####");
}

#[test]
fn test_case() {
    let code = compile("case R1").unwrap();
    assert_eq!(code, "1#####");
}

#[test]
fn test_halt() {
    let code = compile("add 1 R1\nhalt").unwrap();
    // add 1 R1 = 1#, halt (forward 1) = 1###
    assert_eq!(code, "1#1###");
}

#[test]
fn mod_test_clear_macro() {
    let code = compile("clear R1").unwrap();
    assert!(!code.is_empty());
}

#[test]
fn mod_test_move_macro() {
    let code = compile("move R1 R2").unwrap();
    assert!(!code.is_empty());
}

#[test]
fn clear_compiles_to_drain_loop() {
    assert_eq!(
        assemble(&expand_only("clear R1").unwrap()).unwrap(),
        vec![
            Instruction::Case(1),
            Instruction::Forward(3),
            Instruction::Backward(2),
            Instruction::Backward(3),
        ]
    );
    assert_eq!(compile("clear R1").unwrap(), "1#####111###11####111####");
}

#[test]
fn assembly_errors() {
    assert_eq!(compile("goto nowhere").unwrap_err(), "Undefined label: nowhere");
    assert_eq!(compile("a:\nadd 1 R1\na:").unwrap_err(), "Duplicate label: a");
    assert_eq!(
        compile("x:\ngoto x").unwrap_err(),
        "Cannot goto the same instruction position (label: x)"
    );
    assert_eq!(compile("   :").unwrap_err(), "Line 1: Empty label");
    assert_eq!(
        compile("add 1").unwrap_err(),
        "Line 1: 'add' expects 2 arguments: add <1|#> <register>"
    );
    assert_eq!(
        compile("\nadd 2 R1").unwrap_err(),
        "Line 2: 'add' expects '1' or '#', got: 2"
    );
    assert_eq!(
        compile("add 1 X1").unwrap_err(),
        "Line 1: Expected register (R1, R2, ...), got: X1"
    );
    assert_eq!(compile("case Rx").unwrap_err(), "Line 1: Invalid register number: Rx");
    assert_eq!(
        compile("goto").unwrap_err(),
        "Line 1: 'goto' expects 1 argument: goto <label>"
    );
    assert_eq!(
        compile("case R1 R2").unwrap_err(),
        "Line 1: 'case' expects 1 argument: case <register>"
    );
    assert_eq!(compile("jump x").unwrap_err(), "Line 1: Unknown instruction: jump");
}

#[test]
fn assembly_syntax_details() {
    // Instruction names are case-insensitive, registers take r or R, comments are dropped.
    assert_eq!(compile("ADD 1 r3 ; comment\nCase R+2").unwrap(), "111#11#####");
    // halt jumps past the last instruction, even backwards over nothing.
    assert_eq!(compile("start:\nhalt\nadd # R1").unwrap(), "11###1##");
    // An empty source compiles to an empty program.
    assert_eq!(compile("").unwrap(), "");
}
