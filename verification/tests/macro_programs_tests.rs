use one_hash::Instruction::{AddHash, AddOne, Backward, Case, Forward};
use one_hash::types::{string_to_word, word_to_decimal, word_to_string};
use one_hash::{compile, parse_program, Machine, RunResult};

fn run(source: &str, regs: &[(usize, &str)]) -> Machine {
    let code = compile(source).unwrap();
    let program = parse_program(&code).unwrap();
    let mut machine = Machine::new(program).with_max_steps(10_000_000);
    for (n, w) in regs {
        machine.set_register(*n, string_to_word(w));
    }
    assert_eq!(machine.run(), RunResult::Halted);
    machine
}

fn reg(m: &Machine, n: usize) -> String {
    word_to_string(m.get_register(n))
}

fn num(m: &Machine, n: usize) -> u128 {
    word_to_decimal(m.get_register(n)).unwrap()
}

#[test]
fn clear_empties_register() {
    let m = run("clear R1", &[(1, "1#1#"), (2, "11")]);
    assert_eq!(reg(&m, 1), "");
    assert_eq!(reg(&m, 2), "11");
}

#[test]
fn move_appends_and_empties_source() {
    let m = run("move R1 R2", &[(1, "1#1"), (2, "#")]);
    assert_eq!(reg(&m, 1), "");
    assert_eq!(reg(&m, 2), "#1#1");
}

#[test]
fn copy_keeps_source() {
    let m = run("copy R1 R2 R3", &[(1, "1##1")]);
    assert_eq!(reg(&m, 1), "1##1");
    assert_eq!(reg(&m, 2), "1##1");
    assert_eq!(reg(&m, 3), "");
}

#[test]
fn swap_exchanges_registers() {
    let m = run("swap R1 R2 R3", &[(1, "1#"), (2, "##1")]);
    assert_eq!(reg(&m, 1), "##1");
    assert_eq!(reg(&m, 2), "1#");
}

#[test]
fn pop_and_shifts() {
    assert_eq!(reg(&run("pop R1", &[(1, "#11")]), 1), "11");
    assert_eq!(reg(&run("shift_right R1", &[(1, "#11")]), 1), "11");
    assert_eq!(reg(&run("shift_left R1 R2", &[(1, "11")]), 1), "#11");
}

#[test]
fn increment_and_decrement() {
    for v in ["", "1", "11", "#1", "111", "1#1"] {
        let m = run("increment R1 R2", &[(1, v)]);
        let before = word_to_decimal(&string_to_word(v)).unwrap();
        assert_eq!(num(&m, 1), before + 1);
    }
    for v in ["1", "11", "#1", "##1", "1#1"] {
        let m = run("decrement R1 R2", &[(1, v)]);
        let before = word_to_decimal(&string_to_word(v)).unwrap();
        assert_eq!(num(&m, 1), before - 1);
    }
}

#[test]
fn binary_addition() {
    let m = run("bin_add R1 R2 R3 R4 R5", &[(1, "1#1"), (2, "11")]);
    assert_eq!(num(&m, 2), 8);
}

#[test]
fn multiplication() {
    let m = run("multiply R1 R2 R3 R4 R5 R6 R7 R8", &[(1, "11"), (2, "1#1")]);
    assert_eq!(num(&m, 3), 15);
}

#[test]
fn is_nonzero_branches() {
    let prog = "is_nonzero R1 R2 R3 nz z\nnz:\nadd 1 R9\nhalt\nz:\nadd # R9";
    assert_eq!(reg(&run(prog, &[(1, "#1")]), 9), "1");
    assert_eq!(reg(&run(prog, &[]), 9), "#");
}

#[test]
fn divide_gives_quotient_and_remainder() {
    let regs = "divide R1 R2 R3 R4 R5 R6 R7 R8";
    let m = run(regs, &[(1, "#1"), (2, "1")]);
    assert_eq!((num(&m, 3), num(&m, 4)), (2, 0));
    let m = run(regs, &[(1, "111"), (2, "#1")]);
    assert_eq!((num(&m, 3), num(&m, 4)), (3, 1));
    let m = run(regs, &[(1, "#11"), (2, "11")]);
    assert_eq!((num(&m, 3), num(&m, 4)), (2, 0));
    let m = run(regs, &[(1, "1"), (2, "#1")]);
    assert_eq!((num(&m, 3), num(&m, 4)), (0, 1));
    let m = run(regs, &[(1, "1#1#1"), (2, "1#1")]);
    assert_eq!((num(&m, 3), num(&m, 4)), (4, 1));
}

#[test]
fn length_counts_instructions() {
    let m = run("length R1 R2 R3", &[(1, "1#1#")]);
    assert_eq!(reg(&m, 2), "11");
    let m = run("length R1 R2 R3", &[(1, "11##1#####111###")]);
    assert_eq!(reg(&m, 2), "111");
    let m = run("length R1 R2 R3", &[(1, "1#")]);
    assert_eq!(reg(&m, 2), "1");
    let m = run("length R1 R2 R3", &[]);
    assert_eq!(reg(&m, 2), "");
}

#[test]
fn clear_pop_and_move_compile_to_their_programs() {
    let program = |s: &str| parse_program(&compile(s).unwrap()).unwrap();
    assert_eq!(program("clear R5"), vec![Case(5), Forward(3), Backward(2), Backward(3)]);
    assert_eq!(program("pop R4"), vec![Case(4), Forward(3), Forward(2), Forward(1)]);
    assert_eq!(program("shift_right R4"), vec![Case(4), Forward(3), Forward(2), Forward(1)]);
    assert_eq!(
        program("move R2 R7"),
        vec![Case(2), Forward(7), Forward(2), Forward(3), AddOne(7), Backward(5), AddHash(7), Backward(7)]
    );
    assert_eq!(
        program("copy R1 R2 R3"),
        vec![
            Case(1), Forward(7), Forward(2), Forward(3), AddOne(3), Backward(5), AddHash(3), Backward(7),
            Case(3), Forward(9), Forward(2), Forward(4), AddOne(1), AddOne(2), Backward(6),
            AddHash(1), AddHash(2), Backward(9),
        ]
    );
    let mv = |a: usize, b: usize| {
        vec![Case(a), Forward(7), Forward(2), Forward(3), AddOne(b), Backward(5), AddHash(b), Backward(7)]
    };
    let mut swap = mv(1, 3);
    swap.extend(mv(2, 1));
    swap.extend(mv(3, 2));
    assert_eq!(program("swap R1 R2 R3"), swap);
    let mut shl = mv(4, 6);
    shl.push(AddHash(4));
    shl.extend(mv(6, 4));
    assert_eq!(program("shift_left R4 R6"), shl);
    let mut inc = vec![
        Case(1), Forward(7), Forward(2), Forward(3), AddHash(2), Backward(5), AddOne(2), Forward(2),
        AddOne(2),
    ];
    inc.extend(mv(1, 2));
    inc.extend(mv(2, 1));
    assert_eq!(program("increment R1 R2"), inc);
    let mut dec = vec![
        Case(1), Forward(15), Forward(2), Forward(3), AddHash(2), Forward(3), AddOne(2), Backward(7),
    ];
    dec.extend(mv(1, 2));
    dec.extend(mv(2, 1));
    assert_eq!(program("decrement R1 R2"), dec);
}

#[test]
fn decrement_subtracts_one_in_the_counted_steps() {
    // ##11 (12) becomes 11#1 (11): 4 + 4 + 4 steps in the first loop,
    // 4 + 2 moving the rest out and 4 * 4 + 2 moving the word back.
    let m = run("decrement R1 R2", &[(1, "##11"), (3, "#")]);
    assert_eq!((reg(&m, 1), reg(&m, 2), reg(&m, 3)), ("11#1".into(), String::new(), "#".into()));
    assert_eq!(m.step_count(), 12 + 6 + 18);
    assert_eq!(num(&run("decrement R1 R2", &[(1, "1")]), 1), 0);
}

#[test]
fn increment_adds_one_in_the_counted_steps() {
    // 11#1 (11) becomes ##11 (12): two leading ones, then the # turns to 1;
    // 4 + 4 + 4 steps in the first loop, 4 + 2 moving the rest out and
    // 4 * 4 + 2 moving the word back.
    let m = run("increment R1 R2", &[(1, "11#1"), (3, "1")]);
    assert_eq!((reg(&m, 1), reg(&m, 2), reg(&m, 3)), ("##11".into(), String::new(), "1".into()));
    assert_eq!(m.step_count(), 12 + 6 + 18);
    let m = run("increment R1 R2", &[(1, "11")]);
    assert_eq!(reg(&m, 1), "##1");
}

#[test]
fn macro_programs_leave_other_registers_alone() {
    let m = run("swap R1 R2 R3", &[(1, "1#"), (2, "##1"), (4, "11")]);
    assert_eq!((reg(&m, 1), reg(&m, 2), reg(&m, 3), reg(&m, 4)), ("##1".into(), "1#".into(), String::new(), "11".into()));
    let m = run("shift_left R4 R6", &[(4, "1#1"), (5, "#")]);
    assert_eq!((reg(&m, 4), reg(&m, 5), reg(&m, 6)), ("#1#1".into(), "#".into(), String::new()));
    let m = run("copy R1 R2 R3", &[(1, "1#"), (2, "1"), (9, "#")]);
    assert_eq!((reg(&m, 1), reg(&m, 2), reg(&m, 3), reg(&m, 9)), ("1#".into(), "11#".into(), String::new(), "#".into()));
    assert_eq!(m.step_count(), 9 * 2 + 4);
}

#[test]
fn is_nonzero_compiles_to_its_program_and_branches() {
    let src = "is_nonzero R1 R2 R3 nz z\nz:\n    add # R9\n    halt\nnz:\n    add 1 R9";
    let program = parse_program(&compile(src).unwrap()).unwrap();
    let mv = vec![Case(2), Forward(7), Forward(2), Forward(3), AddOne(1), Backward(5), AddHash(1), Backward(7)];
    let mut expected = vec![
        Case(1), Forward(8), Forward(2), Forward(4), AddOne(2), AddOne(3), Backward(6), AddHash(2), Backward(8),
    ];
    expected.extend(mv);
    expected.extend(vec![
        Case(3), Forward(7), Forward(2), Forward(1), Case(3), Forward(5), Backward(2), Backward(3),
        AddHash(9), Forward(2), AddOne(9),
    ]);
    assert_eq!(program, expected);
    let m = run(src, &[(1, "##1#")]);
    assert_eq!((reg(&m, 1), reg(&m, 2), reg(&m, 3), reg(&m, 9)), ("##1#".into(), String::new(), String::new(), "1".into()));
    let m = run(src, &[(1, "###")]);
    assert_eq!((reg(&m, 1), reg(&m, 9)), ("###".into(), "#".into()));
}

#[test]
fn write_compiles_to_its_program_and_writes() {
    let program = parse_program(&compile("write R1 R2 R3").unwrap()).unwrap();
    let mut expected = vec![Case(2), Forward(3), Backward(2), Backward(3)];
    expected.extend(vec![Case(1), Forward(7), Forward(2), Forward(3), AddOne(3), Backward(5), AddHash(3), Backward(7)]);
    expected.extend(vec![
        Case(3), Forward(10), Forward(2), Forward(4), AddOne(2), AddHash(2), Backward(6),
        AddOne(2), AddHash(2), AddHash(2), Backward(10),
    ]);
    assert_eq!(program, expected);
    let m = run("write R1 R2 R3", &[(1, "1#"), (2, "##"), (4, "1")]);
    assert_eq!((reg(&m, 1), reg(&m, 2), reg(&m, 3), reg(&m, 4)), (String::new(), "1#1##".into(), String::new(), "1".into()));
    assert_eq!(m.step_count(), 2 * 2 + 2 + 4 * 2 + 2 + 5 + 6 + 2);
}

#[test]
fn bin_add_compiles_to_its_program_and_adds() {
    let program = parse_program(&compile("bin_add R1 R2 R3 R4 R5").unwrap()).unwrap();
    let expected = vec![Case(2), Forward(7), Forward(2), Forward(3), AddOne(3), Backward(5), AddHash(3), Backward(7), Case(3), Forward(3), Forward(29), Forward(60), Case(1), Forward(3), Forward(8), Forward(16), Case(5), Forward(83), Forward(2), Forward(1), AddOne(2), Forward(79), Case(5), Forward(3), Forward(4), Forward(3), AddOne(2), Backward(19), AddHash(2), AddOne(5), Backward(22), Case(5), Forward(3), Forward(4), Forward(3), AddHash(2), Backward(28), AddOne(2), Backward(30), Case(1), Forward(3), Forward(11), Forward(20), Case(5), Forward(3), Forward(4), Forward(3), AddOne(2), Backward(40), AddHash(2), AddOne(5), Backward(43), Case(5), Forward(3), Forward(5), Forward(4), AddHash(2), AddOne(5), Backward(50), AddOne(2), AddOne(5), Backward(53), Case(5), Forward(3), Forward(4), Forward(3), AddOne(2), Backward(59), AddHash(2), AddOne(5), Backward(62), Case(1), Forward(3), Forward(10), Forward(18), Case(5), Forward(3), Forward(4), Forward(3), AddHash(2), Backward(72), AddOne(2), Backward(74), Case(5), Forward(3), Forward(4), Forward(3), AddOne(2), Backward(80), AddHash(2), AddOne(5), Backward(83), Case(5), Forward(3), Forward(4), Forward(3), AddHash(2), Backward(89), AddOne(2), Backward(91)];
    assert_eq!(program, expected);
    let m = run("bin_add R1 R2 R3 R4 R5", &[(1, "111"), (2, "1#1"), (4, "#")]);
    assert_eq!((num(&m, 2), reg(&m, 1), reg(&m, 3), reg(&m, 4), reg(&m, 5)), (12, String::new(), String::new(), "#".into(), String::new()));
}

#[test]
fn bin_sub_compiles_to_its_program_and_subtracts() {
    let program = parse_program(&compile("bin_sub R1 R2 R3 R4 R5").unwrap()).unwrap();
    let expected = vec![Case(2), Forward(7), Forward(2), Forward(3), AddOne(3), Backward(5), AddHash(3), Backward(7), Case(3), Forward(3), Forward(30), Forward(58), Case(1), Forward(3), Forward(7), Forward(16), Case(5), Forward(3), Backward(2), Backward(3), Forward(81), Case(5), Forward(3), Forward(5), Forward(4), AddOne(2), AddOne(5), Backward(19), AddHash(2), AddOne(5), Backward(22), Case(5), Forward(3), Forward(4), Forward(3), AddHash(2), Backward(28), AddOne(2), AddOne(5), Backward(31), Case(1), Forward(3), Forward(10), Forward(18), Case(5), Forward(3), Forward(4), Forward(3), AddOne(2), Backward(41), AddHash(2), Backward(43), Case(5), Forward(3), Forward(4), Forward(3), AddHash(2), Backward(49), AddOne(2), AddOne(5), Backward(52), Case(5), Forward(3), Forward(4), Forward(3), AddOne(2), Backward(58), AddHash(2), Backward(60), Case(1), Forward(3), Forward(11), Forward(20), Case(5), Forward(3), Forward(4), Forward(3), AddHash(2), Backward(70), AddOne(2), AddOne(5), Backward(73), Case(5), Forward(3), Forward(5), Forward(4), AddOne(2), AddOne(5), Backward(80), AddHash(2), AddOne(5), Backward(83), Case(5), Forward(3), Forward(4), Forward(3), AddHash(2), Backward(89), AddOne(2), AddOne(5), Backward(92)];
    assert_eq!(program, expected);
    let m = run("bin_sub R1 R2 R3 R4 R5", &[(1, "11"), (2, "1#1"), (4, "#")]);
    assert_eq!((num(&m, 2), reg(&m, 1), reg(&m, 3), reg(&m, 4), reg(&m, 5)), (2, String::new(), String::new(), "#".into(), String::new()));
    let m = run("bin_sub R1 R2 R3 R4 R5", &[(1, "1#1"), (2, "1#1")]);
    assert_eq!(num(&m, 2), 0);
}
