use one_hash::instruction::Instruction;
use one_hash::program_to_one_hash;

#[test]
fn test_to_one_hash() {
    assert_eq!(Instruction::AddOne(1).to_one_hash(), "1#");
    assert_eq!(Instruction::AddOne(3).to_one_hash(), "111#");
    assert_eq!(Instruction::AddHash(2).to_one_hash(), "11##");
    assert_eq!(Instruction::Forward(4).to_one_hash(), "1111###");
    assert_eq!(Instruction::Backward(2).to_one_hash(), "11####");
    assert_eq!(Instruction::Case(5).to_one_hash(), "11111#####");
}

#[test]
fn test_describe() {
    assert_eq!(Instruction::AddOne(1).describe(), "Add 1 to R1");
    assert_eq!(Instruction::Case(2).describe(), "Cases on R2");
}

#[test]
fn describe_every_kind() {
    assert_eq!(Instruction::AddHash(10).describe(), "Add # to R10");
    assert_eq!(Instruction::Forward(0).describe(), "Go forward 0");
    assert_eq!(Instruction::Backward(123).describe(), "Go backward 123");
    assert_eq!(
        Instruction::AddOne(usize::MAX).describe(),
        format!("Add 1 to R{}", usize::MAX)
    );
}

#[test]
fn program_text_is_concatenation() {
    let p = vec![Instruction::AddOne(1), Instruction::Case(2), Instruction::Backward(1)];
    assert_eq!(program_to_one_hash(&p), "1#11#####1####");
    assert_eq!(program_to_one_hash(&vec![]), "");
}
