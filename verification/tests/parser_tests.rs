use one_hash::instruction::Instruction;
use one_hash::parser::parse_program;
use one_hash::program_to_one_hash;

#[test]
fn test_parse_simple() {
    let instrs = parse_program("1#").unwrap();
    assert_eq!(instrs.len(), 1);
    assert_eq!(instrs[0], Instruction::AddOne(1));
}

#[test]
fn test_parse_multiple() {
    let instrs = parse_program("1#11##11##111##").unwrap();
    assert_eq!(instrs.len(), 4);
    assert_eq!(instrs[0], Instruction::AddOne(1));
    assert_eq!(instrs[1], Instruction::AddHash(2));
    assert_eq!(instrs[2], Instruction::AddHash(2));
    assert_eq!(instrs[3], Instruction::AddHash(3));
}

#[test]
fn test_parse_all_instruction_types() {
    let instrs = parse_program("1# 11## 111### 1111#### 11111#####").unwrap();
    assert_eq!(instrs.len(), 5);
    assert_eq!(instrs[0], Instruction::AddOne(1));
    assert_eq!(instrs[1], Instruction::AddHash(2));
    assert_eq!(instrs[2], Instruction::Forward(3));
    assert_eq!(instrs[3], Instruction::Backward(4));
    assert_eq!(instrs[4], Instruction::Case(5));
}

#[test]
fn test_comments() {
    let instrs = parse_program("1# ; add 1 to R1\n11## ; add # to R2").unwrap();
    assert_eq!(instrs.len(), 2);
    assert_eq!(instrs[0], Instruction::AddOne(1));
    assert_eq!(instrs[1], Instruction::AddHash(2));
}

#[test]
fn test_whitespace() {
    let instrs = parse_program("  1  #  11 ##  ").unwrap();
    assert_eq!(instrs.len(), 2);
    assert_eq!(instrs[0], Instruction::AddOne(1));
    assert_eq!(instrs[1], Instruction::AddHash(2));
}

#[test]
fn test_invalid_too_many_hashes() {
    let result = parse_program("1######");
    assert!(result.is_err());
}

#[test]
fn test_invalid_hashes_without_ones() {
    let result = parse_program("##");
    assert!(result.is_err());
}

#[test]
fn error_messages() {
    assert_eq!(parse_program("##").unwrap_err(), "Invalid instruction: 2 hashes with no ones");
    assert_eq!(
        parse_program("11######").unwrap_err(),
        "Invalid instruction: 2 ones followed by 6 hashes (max 5 hashes allowed)"
    );
    // The error is reported when the next instruction begins.
    assert_eq!(
        parse_program("1######1#").unwrap_err(),
        "Invalid instruction: 1 ones followed by 6 hashes (max 5 hashes allowed)"
    );
}

#[test]
fn trailing_ones_and_other_text_are_ignored() {
    assert_eq!(parse_program("1#11").unwrap(), vec![Instruction::AddOne(1)]);
    assert_eq!(parse_program("").unwrap(), vec![]);
    assert_eq!(parse_program("abc 1x#").unwrap(), vec![Instruction::AddOne(1)]);
    // A comment ends only at a newline.
    assert_eq!(parse_program("; ## \n1##").unwrap(), vec![Instruction::AddHash(1)]);
}

#[test]
fn parse_reads_back_program_text() {
    let p = vec![
        Instruction::Case(3),
        Instruction::Forward(2),
        Instruction::AddHash(1),
        Instruction::Backward(7),
        Instruction::AddOne(12),
    ];
    assert_eq!(parse_program(&program_to_one_hash(&p)).unwrap(), p);
}
