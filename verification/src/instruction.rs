//! 1# instruction definitions.
//!
//! The 1# language has exactly five instruction types. Each is written as
//! `n` ones followed by one to five hashes.
use vstd::prelude::*;

use crate::text::{decimal, push_str, push_usize, string_of};

verus! {

/// The five instruction types in 1#.
#[derive(Debug, Clone, PartialEq, Eq, Structural)]
pub enum Instruction {
    /// Add 1 to register n (1^n#)
    AddOne(usize),
    /// Add # to register n (1^n##)
    AddHash(usize),
    /// Go forward n instructions (1^n###)
    Forward(usize),
    /// Go backward n instructions (1^n####)
    Backward(usize),
    /// Case on register n (1^n#####)
    Case(usize),
}

/// `n` ones.
pub open spec fn ones(n: nat) -> Seq<char> {
    Seq::new(n, |i: int| '1')
}

/// `n` hashes.
pub open spec fn hashes(n: nat) -> Seq<char> {
    Seq::new(n, |i: int| '#')
}

/// The operand of an instruction.
pub open spec fn operand(i: Instruction) -> nat {
    match i {
        Instruction::AddOne(n) => n as nat,
        Instruction::AddHash(n) => n as nat,
        Instruction::Forward(n) => n as nat,
        Instruction::Backward(n) => n as nat,
        Instruction::Case(n) => n as nat,
    }
}

/// The number of hashes that ends the encoding of an instruction.
pub open spec fn kind(i: Instruction) -> nat {
    match i {
        Instruction::AddOne(_) => 1,
        Instruction::AddHash(_) => 2,
        Instruction::Forward(_) => 3,
        Instruction::Backward(_) => 4,
        Instruction::Case(_) => 5,
    }
}

/// The 1# text of an instruction: its operand in ones, then its kind in
/// hashes.
pub open spec fn encode(i: Instruction) -> Seq<char> {
    ones(operand(i)) + hashes(kind(i))
}

/// The 1# text of a program: its instructions' texts one after another.
pub open spec fn encode_program(p: Seq<Instruction>) -> Seq<char>
    decreases p.len(),
{
    if p.len() == 0 {
        Seq::empty()
    } else {
        encode_program(p.drop_last()) + encode(p.last())
    }
}

/// Every character of a program's 1# text is `1` or `#`.
pub proof fn lemma_encode_program_symbols(p: Seq<Instruction>)
    ensures
        forall|j: int|
            0 <= j < encode_program(p).len() ==> #[trigger] encode_program(p)[j] == '1'
                || encode_program(p)[j] == '#',
    decreases p.len(),
{
    if p.len() > 0 {
        lemma_encode_program_symbols(p.drop_last());
        let a = encode_program(p.drop_last());
        let e = encode(p.last());
        assert forall|j: int| 0 <= j < (a + e).len() implies #[trigger] (a + e)[j] == '1' || (a
            + e)[j] == '#' by {
            if j < a.len() {
                assert((a + e)[j] == a[j]);
            } else {
                let o = ones(operand(p.last()));
                assert(e[j - a.len()] == (o + hashes(kind(p.last())))[j - a.len()]);
            }
        }
    }
}

/// The human-readable description of an instruction.
pub open spec fn description(i: Instruction) -> Seq<char> {
    match i {
        Instruction::AddOne(n) => "Add 1 to R"@ + decimal(n as nat),
        Instruction::AddHash(n) => "Add # to R"@ + decimal(n as nat),
        Instruction::Forward(n) => "Go forward "@ + decimal(n as nat),
        Instruction::Backward(n) => "Go backward "@ + decimal(n as nat),
        Instruction::Case(n) => "Cases on R"@ + decimal(n as nat),
    }
}

/// Appends `n` copies of `c` to `v`.
pub fn push_repeat(v: &mut Vec<char>, c: char, n: usize)
    ensures
        final(v)@ == old(v)@ + Seq::new(n as nat, |i: int| c),
{
    let ghost start = v@;
    let mut k: usize = 0;
    while k < n
        invariant
            k <= n,
            v@ == start + Seq::new(k as nat, |i: int| c),
        decreases n - k,
    {
        v.push(c);
        k = k + 1;
        assert(v@ =~= start + Seq::new(k as nat, |i: int| c));
    }
}

impl Instruction {
    /// The operand and the kind of the instruction.
    fn parts(&self) -> (r: (usize, usize))
        ensures
            r.0 == operand(*self),
            r.1 == kind(*self),
    {
        match self {
            Instruction::AddOne(n) => (*n, 1),
            Instruction::AddHash(n) => (*n, 2),
            Instruction::Forward(n) => (*n, 3),
            Instruction::Backward(n) => (*n, 4),
            Instruction::Case(n) => (*n, 5),
        }
    }

    /// Appends the 1# text of the instruction to `v`.
    pub fn push_one_hash(&self, v: &mut Vec<char>)
        ensures
            final(v)@ == old(v)@ + encode(*self),
    {
        let (n, k) = self.parts();
        push_repeat(v, '1', n);
        push_repeat(v, '#', k);
        assert(v@ =~= old(v)@ + encode(*self));
    }

    /// Converts the instruction to its 1# string representation.
    pub fn to_one_hash(&self) -> (s: String)
        ensures
            s@ == encode(*self),
    {
        let mut v: Vec<char> = Vec::new();
        self.push_one_hash(&mut v);
        assert(v@ =~= encode(*self));
        string_of(&v)
    }

    /// Returns a human-readable description of the instruction.
    pub fn describe(&self) -> (s: String)
        ensures
            s@ == description(*self),
    {
        let mut v: Vec<char> = Vec::new();
        let n = match self {
            Instruction::AddOne(n) => {
                push_str(&mut v, "Add 1 to R");
                *n
            },
            Instruction::AddHash(n) => {
                push_str(&mut v, "Add # to R");
                *n
            },
            Instruction::Forward(n) => {
                push_str(&mut v, "Go forward ");
                *n
            },
            Instruction::Backward(n) => {
                push_str(&mut v, "Go backward ");
                *n
            },
            Instruction::Case(n) => {
                push_str(&mut v, "Cases on R");
                *n
            },
        };
        push_usize(&mut v, n);
        string_of(&v)
    }
}

/// Appends the 1# text of a program to `v`.
pub fn push_program(v: &mut Vec<char>, program: &Vec<Instruction>)
    ensures
        final(v)@ == old(v)@ + encode_program(program@),
{
    let ghost start = v@;
    let mut i: usize = 0;
    assert(program@.take(0) =~= Seq::<Instruction>::empty());
    while i < program.len()
        invariant
            i <= program@.len(),
            v@ == start + encode_program(program@.take(i as int)),
        decreases program@.len() - i,
    {
        program[i].push_one_hash(v);
        assert(program@.take(i + 1).drop_last() =~= program@.take(i as int));
        i = i + 1;
        assert(v@ =~= start + encode_program(program@.take(i as int)));
    }
    assert(program@.take(program@.len() as int) =~= program@);
}

/// The 1# text of a program: the texts of its instructions, one after
/// another.
pub fn program_to_one_hash(program: &Vec<Instruction>) -> (s: String)
    ensures
        s@ == encode_program(program@),
{
    let mut v: Vec<char> = Vec::new();
    push_program(&mut v, program);
    assert(v@ =~= encode_program(program@));
    string_of(&v)
}

} // verus!
