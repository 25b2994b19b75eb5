use one_hash::instruction::Instruction;
use one_hash::machine::{Machine, RunResult, StepResult};
use one_hash::types::{string_to_word, word_to_string};

#[test]
fn test_add_one() {
    let instrs = vec![Instruction::AddOne(1)];
    let mut machine = Machine::new(instrs);
    machine.set_register(1, string_to_word("11#"));
    let result = machine.run();
    assert!(matches!(result, RunResult::Halted));
    assert_eq!(word_to_string(machine.get_register(1)), "11#1");
}

#[test]
fn test_add_hash() {
    let instrs = vec![Instruction::AddHash(1)];
    let mut machine = Machine::new(instrs);
    machine.set_register(1, string_to_word("11"));
    let result = machine.run();
    assert!(matches!(result, RunResult::Halted));
    assert_eq!(word_to_string(machine.get_register(1)), "11#");
}

#[test]
fn test_forward_halt() {
    let instrs = vec![Instruction::Forward(1)];
    let mut machine = Machine::new(instrs);
    let result = machine.run();
    assert!(matches!(result, RunResult::Halted));
}

#[test]
fn test_forward_improper() {
    let instrs = vec![Instruction::Forward(2)];
    let mut machine = Machine::new(instrs);
    let result = machine.run();
    assert!(matches!(result, RunResult::StoppedImproperly));
}

#[test]
fn test_case_empty() {
    let instrs = vec![Instruction::Case(1), Instruction::AddOne(2)];
    let mut machine = Machine::new(instrs);
    let result = machine.run();
    assert!(matches!(result, RunResult::Halted));
    assert_eq!(word_to_string(machine.get_register(2)), "1");
}

#[test]
fn test_case_one() {
    let instrs = vec![
        Instruction::Case(1),
        Instruction::AddOne(2),
        Instruction::AddHash(2),
    ];
    let mut machine = Machine::new(instrs);
    machine.set_register(1, string_to_word("1#"));
    let result = machine.run();
    assert!(matches!(result, RunResult::Halted));
    assert_eq!(word_to_string(machine.get_register(1)), "#");
    assert_eq!(word_to_string(machine.get_register(2)), "#");
}

#[test]
fn test_case_hash() {
    let instrs = vec![
        Instruction::Case(1),
        Instruction::AddOne(2),
        Instruction::AddOne(3),
        Instruction::AddHash(2),
    ];
    let mut machine = Machine::new(instrs);
    machine.set_register(1, string_to_word("#1"));
    let result = machine.run();
    assert!(matches!(result, RunResult::Halted));
    assert_eq!(word_to_string(machine.get_register(1)), "1");
    assert_eq!(word_to_string(machine.get_register(2)), "#");
}

#[test]
fn test_infinite_loop_detection() {
    let instrs = vec![Instruction::Forward(1), Instruction::Backward(1)];
    let mut machine = Machine::new(instrs).with_max_steps(100);
    let result = machine.run();
    assert!(matches!(result, RunResult::MaxStepsReached));
}

#[test]
fn max_steps_counts_executed_instructions() {
    let instrs = vec![Instruction::Forward(1), Instruction::Backward(1)];
    let mut machine = Machine::new(instrs).with_max_steps(100);
    machine.run();
    assert_eq!(machine.step_count(), 100);
    let mut zero = Machine::new(vec![Instruction::AddOne(1)]).with_max_steps(0);
    assert_eq!(zero.run(), RunResult::MaxStepsReached);
    assert_eq!(zero.step_count(), 0);
}

#[test]
fn backward_before_start_stops_improperly() {
    let mut machine = Machine::new(vec![Instruction::AddOne(1), Instruction::Backward(2)]);
    assert_eq!(machine.run(), RunResult::StoppedImproperly);
    assert_eq!(machine.step_count(), 2);
    assert_eq!(machine.pc(), 1);
}

#[test]
fn huge_forward_jump_stops_improperly() {
    let mut machine = Machine::new(vec![Instruction::AddOne(1), Instruction::Forward(usize::MAX)]);
    assert_eq!(machine.run(), RunResult::StoppedImproperly);
}

#[test]
fn steps_after_halting_change_nothing() {
    let mut machine = Machine::new(vec![Instruction::AddOne(3)]);
    assert_eq!(machine.run(), RunResult::Halted);
    assert!(matches!(machine.step(), StepResult::Halted));
    assert_eq!(machine.step_count(), 1);
    assert_eq!(word_to_string(machine.get_register(3)), "1");
    let mut empty = Machine::new(vec![]);
    assert_eq!(empty.run(), RunResult::Halted);
    assert_eq!(empty.step_count(), 0);
}

#[test]
fn case_on_one_skips_an_instruction() {
    // R1 = 111: the case removes the first 1 and skips one instruction, so the
    // program halts after the case and one forward jump, with R1 = 11.
    let program = one_hash::parse_program("1#####1###1###").unwrap();
    let mut machine = Machine::new(program);
    machine.set_register(1, string_to_word("111"));
    assert_eq!(machine.run(), RunResult::Halted);
    assert_eq!(machine.step_count(), 2);
    assert_eq!(word_to_string(machine.get_register(1)), "11");
}

#[test]
fn case_reads_register_that_was_never_set() {
    let mut machine = Machine::new(vec![Instruction::Case(4)]);
    assert_eq!(machine.run(), RunResult::Halted);
    assert!(!machine.registers().contains_key(&4));
    assert!(machine.get_register(4).is_empty());
    assert!(machine.get_register(9).is_empty());
}

#[test]
fn register_read_after_write() {
    let mut machine = Machine::new(vec![]);
    machine.set_register(3, string_to_word("1#1"));
    machine.set_register(4, string_to_word("#"));
    machine.set_register(3, string_to_word("11"));
    assert_eq!(word_to_string(machine.get_register(3)), "11");
    assert_eq!(word_to_string(machine.get_register(4)), "#");
    assert!(machine.get_register(5).is_empty());
}

#[test]
fn registers_holds_only_non_empty_registers() {
    let mut machine = Machine::new(one_hash::parse_program("11#####1#").unwrap());
    machine.set_register(1, string_to_word(""));
    machine.set_register(2, string_to_word("1"));
    assert!(!machine.registers().contains_key(&1));
    assert_eq!(machine.run(), RunResult::Halted);
    // The case took the only symbol of R2, so R2 leaves the map.
    assert!(machine.registers().is_empty());
    assert!(machine.get_register(2).is_empty());
}

#[test]
fn nonempty_registers_are_listed_by_number() {
    let mut machine = Machine::new(vec![]);
    machine.set_register(7, string_to_word("1#"));
    machine.set_register(2, string_to_word("#"));
    machine.set_register(5, string_to_word(""));
    machine.set_register(3, string_to_word("111"));
    let regs: Vec<(usize, String)> = machine
        .nonempty_registers()
        .iter()
        .map(|(n, w)| (*n, word_to_string(w)))
        .collect();
    assert_eq!(
        regs,
        vec![(2, "#".to_string()), (3, "111".to_string()), (7, "1#".to_string())]
    );
}

#[test]
fn run_past_its_limit_stops_at_once() {
    let program = one_hash::parse_program("1#1#1#").unwrap();
    let mut machine = Machine::new(program);
    assert_eq!(machine.step(), StepResult::Continue);
    assert_eq!(machine.step(), StepResult::Continue);
    let mut machine = machine.with_max_steps(1);
    assert_eq!(machine.run(), RunResult::MaxStepsReached);
    assert_eq!(machine.step_count(), 2);
    assert_eq!(word_to_string(machine.get_register(1)), "11");
}
