//! Parser for 1# programs.
//!
//! Parses raw 1# source code into a list of instructions.
use vstd::prelude::*;

use crate::instruction::{encode, encode_program, hashes, kind, ones, operand, Instruction};
use crate::text::{chars_of, decimal, push_str, push_usize, string_of};

verus! {

/// What the parser has read so far: the finished instructions, the ones and
/// hashes of the instruction being read, whether it is inside a comment, and
/// the error that stopped it, if any.
pub struct ParseState {
    pub instrs: Seq<Instruction>,
    pub ones: nat,
    pub hashes: nat,
    pub in_comment: bool,
    pub error: Option<Seq<char>>,
}

/// The state before anything is read.
pub open spec fn parse_init() -> ParseState {
    ParseState {
        instrs: Seq::empty(),
        ones: 0,
        hashes: 0,
        in_comment: false,
        error: None,
    }
}

/// The instruction written by `ones` ones and `hashes` hashes, none while no
/// hash has been read, or the error for a malformed instruction.
pub open spec fn instruction_of(ones: nat, hashes: nat) -> Result<Option<Instruction>, Seq<char>> {
    if ones == 0 {
        Err("Invalid instruction: "@ + decimal(hashes) + " hashes with no ones"@)
    } else if hashes == 0 {
        Ok(None)
    } else if hashes == 1 {
        Ok(Some(Instruction::AddOne(ones as usize)))
    } else if hashes == 2 {
        Ok(Some(Instruction::AddHash(ones as usize)))
    } else if hashes == 3 {
        Ok(Some(Instruction::Forward(ones as usize)))
    } else if hashes == 4 {
        Ok(Some(Instruction::Backward(ones as usize)))
    } else if hashes == 5 {
        Ok(Some(Instruction::Case(ones as usize)))
    } else {
        Err(
            "Invalid instruction: "@ + decimal(ones) + " ones followed by "@ + decimal(hashes)
                + " hashes (max 5 hashes allowed)"@,
        )
    }
}

/// Ends the instruction being read.
pub open spec fn finish_instruction(st: ParseState) -> ParseState {
    match instruction_of(st.ones, st.hashes) {
        Err(e) => ParseState { error: Some(e), ..st },
        Ok(Some(i)) => ParseState { instrs: st.instrs.push(i), ones: 0, hashes: 0, ..st },
        Ok(None) => ParseState { ones: 0, hashes: 0, ..st },
    }
}

/// Reads one character. A `;` starts a comment that runs to the end of the
/// line; a `1` after hashes ends the instruction being read; every character
/// other than `1`, `#`, `;` and newline is ignored.
pub open spec fn parse_step(st: ParseState, c: char) -> ParseState {
    if st.error is Some {
        st
    } else if c == ';' {
        ParseState { in_comment: true, ..st }
    } else if c == '\n' {
        ParseState { in_comment: false, ..st }
    } else if st.in_comment {
        st
    } else if c == '1' {
        let f = if st.hashes > 0 {
            finish_instruction(st)
        } else {
            st
        };
        if f.error is Some {
            f
        } else {
            ParseState { ones: f.ones + 1, ..f }
        }
    } else if c == '#' {
        ParseState { hashes: st.hashes + 1, ..st }
    } else {
        st
    }
}

/// The state after reading all of `s`, starting in `st`.
pub open spec fn parse_from(st: ParseState, s: Seq<char>) -> ParseState
    decreases s.len(),
{
    if s.len() == 0 {
        st
    } else {
        parse_step(parse_from(st, s.drop_last()), s.last())
    }
}

/// What `parse_program` gives for the source text `s`.
pub open spec fn parse_source(s: Seq<char>) -> Result<Seq<Instruction>, Seq<char>> {
    let st = parse_from(parse_init(), s);
    match st.error {
        Some(e) => Err(e),
        None => if st.hashes > 0 {
            match instruction_of(st.ones, st.hashes) {
                Err(e) => Err(e),
                Ok(Some(i)) => Ok(st.instrs.push(i)),
                Ok(None) => Ok(st.instrs),
            }
        } else {
            Ok(st.instrs)
        },
    }
}

/// Reading `a` then `b` is reading `a + b`.
pub proof fn lemma_parse_from_concat(st: ParseState, a: Seq<char>, b: Seq<char>)
    ensures
        parse_from(st, a + b) == parse_from(parse_from(st, a), b),
    decreases b.len(),
{
    if b.len() == 0 {
        assert(a + b =~= a);
    } else {
        lemma_parse_from_concat(st, a, b.drop_last());
        assert((a + b).drop_last() =~= a + b.drop_last());
        assert((a + b).last() == b.last());
    }
}

proof fn lemma_error_sticky(st: ParseState, s: Seq<char>, k: int)
    requires
        0 <= k <= s.len(),
        parse_from(st, s.take(k)).error is Some,
    ensures
        parse_from(st, s) == parse_from(st, s.take(k)),
    decreases s.len() - k,
{
    if k < s.len() {
        assert(s.take(k + 1).drop_last() =~= s.take(k));
        lemma_error_sticky(st, s, k + 1);
    } else {
        assert(s.take(k) =~= s);
    }
}

/// Creates an instruction from a count of ones and hashes.
fn make_instruction(ones: usize, hashes: usize) -> (r: Result<Option<Instruction>, Vec<char>>)
    ensures
        match r {
            Ok(i) => instruction_of(ones as nat, hashes as nat) == Ok::<
                Option<Instruction>,
                Seq<char>,
            >(i),
            Err(e) => instruction_of(ones as nat, hashes as nat) == Err::<
                Option<Instruction>,
                Seq<char>,
            >(e@),
        },
{
    if ones == 0 {
        let mut e: Vec<char> = Vec::new();
        push_str(&mut e, "Invalid instruction: ");
        push_usize(&mut e, hashes);
        push_str(&mut e, " hashes with no ones");
        return Err(e);
    }
    match hashes {
        0 => Ok(None),
        1 => Ok(Some(Instruction::AddOne(ones))),
        2 => Ok(Some(Instruction::AddHash(ones))),
        3 => Ok(Some(Instruction::Forward(ones))),
        4 => Ok(Some(Instruction::Backward(ones))),
        5 => Ok(Some(Instruction::Case(ones))),
        _ => {
            let mut e: Vec<char> = Vec::new();
            push_str(&mut e, "Invalid instruction: ");
            push_usize(&mut e, ones);
            push_str(&mut e, " ones followed by ");
            push_usize(&mut e, hashes);
            push_str(&mut e, " hashes (max 5 hashes allowed)");
            Err(e)
        },
    }
}

/// Parses a 1# program into a list of instructions.
///
/// The parser handles:
/// - Whitespace (ignored)
/// - Comments (semicolon to end of line)
/// - The two valid symbols: `1` and `#`
pub fn parse_program(source: &str) -> (r: Result<Vec<Instruction>, String>)
    ensures
        match r {
            Ok(v) => parse_source(source@) == Ok::<Seq<Instruction>, Seq<char>>(v@),
            Err(e) => parse_source(source@) == Err::<Seq<Instruction>, Seq<char>>(e@),
        },
{
    let chars = chars_of(source);
    let mut instructions: Vec<Instruction> = Vec::new();
    let mut ones: usize = 0;
    let mut hashes: usize = 0;
    let mut in_comment = false;
    let mut i: usize = 0;
    while i < chars.len()
        invariant
            i <= chars@.len(),
            chars@ == source@,
            ones <= i,
            hashes <= i,
            parse_from(parse_init(), chars@.take(i as int)) == (ParseState {
                instrs: instructions@,
                ones: ones as nat,
                hashes: hashes as nat,
                in_comment,
                error: None,
            }),
        decreases chars@.len() - i,
    {
        let c = chars[i];
        assert(chars@.take(i + 1).drop_last() =~= chars@.take(i as int));
        if c == ';' {
            in_comment = true;
        } else if c == '\n' {
            in_comment = false;
        } else if in_comment {
        } else if c == '1' {
            if hashes > 0 {
                match make_instruction(ones, hashes) {
                    Err(e) => {
                        proof {
                            lemma_error_sticky(parse_init(), chars@, i + 1);
                        }
                        return Err(string_of(&e));
                    },
                    Ok(Some(instr)) => {
                        instructions.push(instr);
                    },
                    Ok(None) => {},
                }
                ones = 0;
                hashes = 0;
            }
            ones = ones + 1;
        } else if c == '#' {
            hashes = hashes + 1;
        }
        i = i + 1;
    }
    assert(chars@.take(chars@.len() as int) =~= chars@);
    if hashes > 0 {
        match make_instruction(ones, hashes) {
            Err(e) => {
                return Err(string_of(&e));
            },
            Ok(Some(instr)) => {
                instructions.push(instr);
            },
            Ok(None) => {},
        }
    }
    Ok(instructions)
}

// ---------------------------------------------------------------------------
// Reading back what `to_one_hash` writes
// ---------------------------------------------------------------------------

/// A state outside any comment and without error.
pub open spec fn reading(instrs: Seq<Instruction>, ones: nat, hashes: nat) -> ParseState {
    ParseState { instrs, ones, hashes, in_comment: false, error: None }
}

proof fn lemma_read_ones(xs: Seq<Instruction>, n: nat, m: nat)
    ensures
        parse_from(reading(xs, n, 0), ones(m)) == reading(xs, n + m, 0),
    decreases m,
{
    if m > 0 {
        lemma_read_ones(xs, n, (m - 1) as nat);
        assert(ones(m).drop_last() =~= ones((m - 1) as nat));
    } else {
        assert(ones(m) =~= Seq::<char>::empty());
    }
}

proof fn lemma_read_hashes(xs: Seq<Instruction>, n: nat, h: nat, m: nat)
    ensures
        parse_from(reading(xs, n, h), hashes(m)) == reading(xs, n, h + m),
    decreases m,
{
    if m > 0 {
        lemma_read_hashes(xs, n, h, (m - 1) as nat);
        assert(hashes(m).drop_last() =~= hashes((m - 1) as nat));
    } else {
        assert(hashes(m) =~= Seq::<char>::empty());
    }
}

proof fn lemma_instruction_of_encode(i: Instruction)
    requires
        operand(i) >= 1,
    ensures
        instruction_of(operand(i), kind(i)) == Ok::<Option<Instruction>, Seq<char>>(Some(i)),
{
}

/// Reading the text of one more instruction after a finished one.
proof fn lemma_read_next(xs: Seq<Instruction>, prev: Instruction, i: Instruction)
    requires
        operand(prev) >= 1,
        operand(i) >= 1,
    ensures
        parse_from(reading(xs, operand(prev), kind(prev)), encode(i)) == reading(
            xs.push(prev),
            operand(i),
            kind(i),
        ),
{
    let st = reading(xs, operand(prev), kind(prev));
    let n = operand(i);
    lemma_instruction_of_encode(prev);
    let first = seq!['1'];
    let rest = ones((n - 1) as nat) + hashes(kind(i));
    assert(encode(i) =~= first + rest);
    lemma_parse_from_concat(st, first, rest);
    assert(first.drop_last() =~= Seq::<char>::empty());
    assert(parse_from(st, first.drop_last()) == st);
    assert(first.last() == '1');
    assert(parse_from(st, first) == reading(xs.push(prev), 1, 0));
    lemma_parse_from_concat(reading(xs.push(prev), 1, 0), ones((n - 1) as nat), hashes(kind(i)));
    lemma_read_ones(xs.push(prev), 1, (n - 1) as nat);
    lemma_read_hashes(xs.push(prev), n, 0, kind(i));
}

/// Reading the text of the first instruction.
proof fn lemma_read_first(i: Instruction)
    requires
        operand(i) >= 1,
    ensures
        parse_from(parse_init(), encode(i)) == reading(Seq::empty(), operand(i), kind(i)),
{
    assert(parse_init() == reading(Seq::empty(), 0, 0));
    lemma_parse_from_concat(parse_init(), ones(operand(i)), hashes(kind(i)));
    lemma_read_ones(Seq::empty(), 0, operand(i));
    lemma_read_hashes(Seq::empty(), operand(i), 0, kind(i));
}

proof fn lemma_read_program(p: Seq<Instruction>)
    requires
        p.len() > 0,
        forall|j: int| 0 <= j < p.len() ==> operand(#[trigger] p[j]) >= 1,
    ensures
        parse_from(parse_init(), encode_program(p)) == reading(
            p.drop_last(),
            operand(p.last()),
            kind(p.last()),
        ),
    decreases p.len(),
{
    if p.len() == 1 {
        assert(encode_program(p.drop_last()) =~= Seq::<char>::empty());
        assert(encode_program(p) =~= encode(p[0]));
        lemma_read_first(p[0]);
        assert(p.drop_last() =~= Seq::<Instruction>::empty());
    } else {
        let q = p.drop_last();
        assert forall|j: int| 0 <= j < q.len() implies operand(#[trigger] q[j]) >= 1 by {
            assert(q[j] == p[j]);
        }
        lemma_read_program(q);
        lemma_parse_from_concat(parse_init(), encode_program(q), encode(p.last()));
        assert(operand(p[p.len() - 1]) >= 1);
        assert(operand(q[q.len() - 1]) >= 1);
        lemma_read_next(q.drop_last(), q.last(), p.last());
        assert(q.drop_last().push(q.last()) =~= q);
    }
}

/// Parsing the 1# text of a program gives the program back, for every
/// program whose operands are all at least 1.
pub proof fn lemma_parse_encoded_program(p: Seq<Instruction>)
    requires
        forall|j: int| 0 <= j < p.len() ==> operand(#[trigger] p[j]) >= 1,
    ensures
        parse_source(encode_program(p)) == Ok::<Seq<Instruction>, Seq<char>>(p),
{
    if p.len() == 0 {
        assert(encode_program(p) =~= Seq::<char>::empty());
        assert(p =~= Seq::<Instruction>::empty());
    } else {
        lemma_read_program(p);
        assert(operand(p[p.len() - 1]) >= 1);
        lemma_instruction_of_encode(p.last());
        assert(p.drop_last().push(p.last()) =~= p);
    }
}

} // verus!
