use one_hash::assembler::macros::{expand_macros, parse_macro_definitions, reset_label_counter, LabelCounter};
use one_hash::{expand_only, UserMacro};

#[test]
fn test_user_macro() {
    let mut counter = LabelCounter::new();
    reset_label_counter(&mut counter);
    let source = r#"
.macro addone reg
    add 1 reg
.endmacro

addone R1
addone R2
"#;
    let expanded = expand_macros(source, &mut counter).unwrap();
    assert!(expanded.contains("add 1 R1"));
    assert!(expanded.contains("add 1 R2"));
}

#[test]
fn macros_test_clear_macro() {
    let mut counter = LabelCounter::new();
    reset_label_counter(&mut counter);
    let expanded = expand_macros("clear R1", &mut counter).unwrap();
    assert!(expanded.contains("case R1"));
}

#[test]
fn macros_test_move_macro() {
    let mut counter = LabelCounter::new();
    reset_label_counter(&mut counter);
    let expanded = expand_macros("move R1 R2", &mut counter).unwrap();
    assert!(expanded.contains("case R1"));
    assert!(expanded.contains("add 1 R2"));
    assert!(expanded.contains("add # R2"));
}

#[test]
fn test_compare_eq_macro() {
    let mut counter = LabelCounter::new();
    reset_label_counter(&mut counter);
    let expanded = expand_macros("compare_eq R1 R2 R3 R4 R5", &mut counter).unwrap();
    // Fully expanded - should have case instructions for comparison
    assert!(expanded.contains("case R4")); // tmp1
    assert!(expanded.contains("case R5")); // tmp2
    assert!(expanded.contains("add 1 R3")); // result = 1 if equal
}

#[test]
fn test_length_macro() {
    let mut counter = LabelCounter::new();
    reset_label_counter(&mut counter);
    let expanded = expand_macros("length R1 R2 R3", &mut counter).unwrap();
    // Fully expanded - should have case R2 for clearing and case R3 for reading
    assert!(expanded.contains("case R2")); // clear R2
    assert!(expanded.contains("case R3")); // reading symbols
    assert!(expanded.contains("add 1 R2")); // counting
}

#[test]
fn test_write_macro() {
    let mut counter = LabelCounter::new();
    reset_label_counter(&mut counter);
    let expanded = expand_macros("write R1 R2 R3", &mut counter).unwrap();
    // Fully expanded - should have case R2 for clearing and output to R2
    assert!(expanded.contains("case R2")); // clear R2
    assert!(expanded.contains("case R3")); // reading from tmp
    assert!(expanded.contains("add 1 R2"));
    assert!(expanded.contains("add # R2"));
}

#[test]
fn test_diag_macro() {
    let mut counter = LabelCounter::new();
    reset_label_counter(&mut counter);
    let expanded = expand_macros("diag R1 R2 R3 R4", &mut counter).unwrap();
    // diag uses copy, write, move - all expanded
    assert!(expanded.contains("case R1")); // copy source
    assert!(expanded.contains("add 1 R2")); // output from write
}

#[test]
fn test_bump_macro() {
    let mut counter = LabelCounter::new();
    reset_label_counter(&mut counter);
    let expanded = expand_macros("bump R1 R2 R3 R4 R5 R6", &mut counter).unwrap();
    // Fully expanded
    assert!(expanded.contains("case R3")); // clear R3
    assert!(expanded.contains("case R4")); // reading program
    assert!(expanded.contains("add 1 R3")); // output
}

#[test]
fn test_parametric_macro_wrong_args() {
    let mut counter = LabelCounter::new();
    reset_label_counter(&mut counter);
    // These macros require specific argument counts
    let result = expand_macros("compare_eq R1", &mut counter);
    assert!(result.is_err());
    assert!(result.unwrap_err().contains("expects 5 arguments"));

    let result = expand_macros("length R1", &mut counter);
    assert!(result.is_err());
    assert!(result.unwrap_err().contains("expects 3 arguments"));
}

#[test]
fn clear_expansion_text() {
    assert_eq!(
        expand_only("clear R1").unwrap(),
        "__clr_0__:\n    case R1\n    goto __clr_0___done\n    goto __clr_0__\n    goto __clr_0__\n__clr_0___done:"
    );
}

#[test]
fn labels_continue_across_calls() {
    let mut counter = LabelCounter::new();
    let first = expand_macros("pop R1", &mut counter).unwrap();
    let second = expand_macros("pop R1", &mut counter).unwrap();
    assert!(first.starts_with("__pop_0__:"));
    assert!(second.starts_with("__pop_1__:"));
    assert_eq!(counter.next, 2);
    reset_label_counter(&mut counter);
    assert_eq!(expand_macros("pop R1", &mut counter).unwrap(), first);
}

#[test]
fn nested_builtin_macros_expand_in_later_passes() {
    let expanded = expand_only("swap R1 R2 R3").unwrap();
    assert!(expanded.contains("__mv_0__:"));
    assert!(expanded.contains("__mv_2__:"));
    assert!(!expanded.contains("move"));
    assert_eq!(expand_only("shift_right R4").unwrap(), expand_only("pop R4").unwrap());
}

#[test]
fn user_macro_parameters_and_local_labels() {
    let source = ".macro twice r\n@top:\n    add 1 r\n    goto @top ; r stays\n.endmacro\ntwice R7\ntwice R8";
    assert_eq!(
        expand_only(source).unwrap(),
        "__twice_0__top:\n    add 1 R7\n    goto __twice_0__top ; R7 stays\n__twice_1__top:\n    add 1 R8\n    goto __twice_1__top ; R8 stays"
    );
}

#[test]
fn macro_definition_errors() {
    assert_eq!(
        expand_only(".macro a\n.macro b\n.endmacro").unwrap_err(),
        "Line 2: Nested macro definitions not allowed"
    );
    assert_eq!(expand_only(".macro").unwrap_err(), "Line 1: .macro requires a name");
    assert_eq!(
        expand_only(".endmacro").unwrap_err(),
        "Line 1: .endmacro without matching .macro"
    );
    assert_eq!(
        expand_only("\n.macro a\n.endmacro\n.def A\n.end").unwrap_err(),
        "Line 4: Duplicate macro definition: a"
    );
    assert_eq!(expand_only("x\n.macro m").unwrap_err(), "Line 2: Unclosed macro definition");
    assert_eq!(
        expand_only(".macro m a b\n.endmacro\nm R1").unwrap_err(),
        "Line 1: Macro 'm' expects 2 arguments, got 1"
    );
    assert_eq!(
        expand_only("clear").unwrap_err(),
        "Line 1: 'clear' expects 1 argument: clear <reg>"
    );
}

#[test]
fn recursive_macro_is_refused() {
    let err = expand_only(".macro loop\nloop\n.endmacro\nloop").unwrap_err();
    assert_eq!(err, "Too many macro expansion passes (possible infinite recursion)");
}

#[test]
fn macro_definitions_are_read_out() {
    let (macros, rest) = parse_macro_definitions("a\n.MACRO Inc r t ; c\nadd 1 r\n.endmacro\nb").unwrap();
    assert_eq!(rest, "a\nb");
    assert_eq!(macros.len(), 1);
    let m: &UserMacro = &macros[0];
    assert_eq!(m.name, "inc");
    assert_eq!(m.params, vec!["r".to_string(), "t".to_string()]);
    assert_eq!(m.body, vec!["add 1 r".to_string()]);
}

#[test]
fn expand_user_macro_directly() {
    let m = UserMacro {
        name: "m".to_string(),
        params: vec!["x".to_string()],
        body: vec!["add 1 x".to_string(), "@l: goto @l".to_string()],
    };
    let mut counter = LabelCounter::new();
    counter.next = 5;
    let lines = one_hash::assembler::macros::expand_user_macro(&m, &["R9"], 3, &mut counter).unwrap();
    assert_eq!(lines, vec!["add 1 R9".to_string(), "__m_5__l: goto __m_5__l".to_string()]);
    assert_eq!(counter.next, 6);
    let err = one_hash::assembler::macros::expand_user_macro(&m, &[], 3, &mut counter).unwrap_err();
    assert_eq!(err, "Line 3: Macro 'm' expects 1 arguments, got 0");
    assert_eq!(counter.next, 6);
}
