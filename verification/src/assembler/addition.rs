//! What the program of the built-in macro `bin_add` computes when run.
//!
//! `bin_add src dst t u c` first moves `dst` to `t`, then adds `t` and `src`
//! bit by bit, writing the sum to `dst` and keeping the carry in `c`.
use vstd::prelude::*;

use super::behaviour::{after_move, lemma_move_at, move_program};
use crate::instruction::Instruction;
use crate::machine::{
    nonempty_only, reg, run_spec, step_limit, step_spec, store, MachineState, RunResult,
};
use crate::types::{bit, two_pow, value, Symbol};

verus! {

/// The bit that the word `w` starts with; 0 for the empty word.
pub open spec fn first_bit(w: Seq<Symbol>) -> nat {
    if w.len() == 0 {
        0
    } else {
        bit(w[0])
    }
}

/// `w` without its first symbol; the empty word stays empty.
pub open spec fn rest_word(w: Seq<Symbol>) -> Seq<Symbol> {
    if w.len() == 0 {
        w
    } else {
        w.drop_first()
    }
}

/// The symbol of the bit `b`.
pub open spec fn bit_symbol(b: nat) -> Symbol {
    if b == 1 {
        Symbol::One
    } else {
        Symbol::Hash
    }
}

/// The state that the program of `bin_add` runs in: four different
/// registers, the carry register holding nothing or one `1`.
pub open spec fn bin_add_ready(s: MachineState, src: usize, dst: usize, t: usize, c: usize) -> bool {
    &&& src != dst && src != t && src != c && dst != t && dst != c && t != c
    &&& s.program == bin_add_program(src, dst, t, c)
    &&& nonempty_only(s.registers)
    &&& (reg(s.registers, c) == Seq::<Symbol>::empty() || reg(s.registers, c) == seq![Symbol::One])
}

/// The sum of the next bits of `t` and `src` and the carry.
pub open spec fn bin_add_sum(s: MachineState, src: usize, t: usize, c: usize) -> nat {
    first_bit(reg(s.registers, t)) + first_bit(reg(s.registers, src)) + reg(s.registers, c).len()
}

/// The state after one round of the adding loop: one bit taken from each of
/// `t` and `src`, the sum's bit written to `dst`, the new carry in `c`.
pub open spec fn bin_add_next(s: MachineState, src: usize, dst: usize, t: usize, c: usize) -> MachineState {
    let sum = bin_add_sum(s, src, t, c);
    MachineState {
        registers: store(
            store(
                store(
                    store(s.registers, t, rest_word(reg(s.registers, t))),
                    src,
                    rest_word(reg(s.registers, src)),
                ),
                c,
                if sum >= 2 {
                    seq![Symbol::One]
                } else {
                    Seq::empty()
                },
            ),
            dst,
            reg(s.registers, dst).push(bit_symbol(sum % 2)),
        ),
        pc: 8,
        step_count: s.step_count + if sum >= 2 {
            9nat
        } else {
            8nat
        },
        ..s
    }
}

/// The state when the adding loop ends: the carry, if any, written to `dst`
/// and taken from `c`.
pub open spec fn bin_add_end(s: MachineState, src: usize, dst: usize, t: usize, c: usize) -> MachineState {
    if reg(s.registers, c).len() == 0 {
        MachineState { pc: 100, step_count: s.step_count + 6, ..s }
    } else {
        MachineState {
            registers: s.registers.remove(c).insert(dst, reg(s.registers, dst).push(Symbol::One)),
            pc: 100,
            step_count: s.step_count + 8,
            ..s
        }
    }
}

/// The program of `bin_add src dst t u c` (the fourth argument is not used).
pub open spec fn bin_add_program(src: usize, dst: usize, t: usize, c: usize) -> Seq<Instruction> {
    seq![
        Instruction::Case(dst),
        Instruction::Forward(7),
        Instruction::Forward(2),
        Instruction::Forward(3),
        Instruction::AddOne(t),
        Instruction::Backward(5),
        Instruction::AddHash(t),
        Instruction::Backward(7),
        Instruction::Case(t),
        Instruction::Forward(3),
        Instruction::Forward(29),
        Instruction::Forward(60),
        Instruction::Case(src),
        Instruction::Forward(3),
        Instruction::Forward(8),
        Instruction::Forward(16),
        Instruction::Case(c),
        Instruction::Forward(83),
        Instruction::Forward(2),
        Instruction::Forward(1),
        Instruction::AddOne(dst),
        Instruction::Forward(79),
        Instruction::Case(c),
        Instruction::Forward(3),
        Instruction::Forward(4),
        Instruction::Forward(3),
        Instruction::AddOne(dst),
        Instruction::Backward(19),
        Instruction::AddHash(dst),
        Instruction::AddOne(c),
        Instruction::Backward(22),
        Instruction::Case(c),
        Instruction::Forward(3),
        Instruction::Forward(4),
        Instruction::Forward(3),
        Instruction::AddHash(dst),
        Instruction::Backward(28),
        Instruction::AddOne(dst),
        Instruction::Backward(30),
        Instruction::Case(src),
        Instruction::Forward(3),
        Instruction::Forward(11),
        Instruction::Forward(20),
        Instruction::Case(c),
        Instruction::Forward(3),
        Instruction::Forward(4),
        Instruction::Forward(3),
        Instruction::AddOne(dst),
        Instruction::Backward(40),
        Instruction::AddHash(dst),
        Instruction::AddOne(c),
        Instruction::Backward(43),
        Instruction::Case(c),
        Instruction::Forward(3),
        Instruction::Forward(5),
        Instruction::Forward(4),
        Instruction::AddHash(dst),
        Instruction::AddOne(c),
        Instruction::Backward(50),
        Instruction::AddOne(dst),
        Instruction::AddOne(c),
        Instruction::Backward(53),
        Instruction::Case(c),
        Instruction::Forward(3),
        Instruction::Forward(4),
        Instruction::Forward(3),
        Instruction::AddOne(dst),
        Instruction::Backward(59),
        Instruction::AddHash(dst),
        Instruction::AddOne(c),
        Instruction::Backward(62),
        Instruction::Case(src),
        Instruction::Forward(3),
        Instruction::Forward(10),
        Instruction::Forward(18),
        Instruction::Case(c),
        Instruction::Forward(3),
        Instruction::Forward(4),
        Instruction::Forward(3),
        Instruction::AddHash(dst),
        Instruction::Backward(72),
        Instruction::AddOne(dst),
        Instruction::Backward(74),
        Instruction::Case(c),
        Instruction::Forward(3),
        Instruction::Forward(4),
        Instruction::Forward(3),
        Instruction::AddOne(dst),
        Instruction::Backward(80),
        Instruction::AddHash(dst),
        Instruction::AddOne(c),
        Instruction::Backward(83),
        Instruction::Case(c),
        Instruction::Forward(3),
        Instruction::Forward(4),
        Instruction::Forward(3),
        Instruction::AddHash(dst),
        Instruction::Backward(89),
        Instruction::AddOne(dst),
        Instruction::Backward(91),
    ]
}


proof fn lemma_bin_add_program_at(src: usize, dst: usize, t: usize, c: usize, p: Seq<Instruction>)
    requires
        p == bin_add_program(src, dst, t, c),
    ensures
        p.len() == 100,
        p[0] == Instruction::Case(dst),
        p[1] == Instruction::Forward(7),
        p[2] == Instruction::Forward(2),
        p[3] == Instruction::Forward(3),
        p[4] == Instruction::AddOne(t),
        p[5] == Instruction::Backward(5),
        p[6] == Instruction::AddHash(t),
        p[7] == Instruction::Backward(7),
        p[8] == Instruction::Case(t),
        p[9] == Instruction::Forward(3),
        p[10] == Instruction::Forward(29),
        p[11] == Instruction::Forward(60),
        p[12] == Instruction::Case(src),
        p[13] == Instruction::Forward(3),
        p[14] == Instruction::Forward(8),
        p[15] == Instruction::Forward(16),
        p[16] == Instruction::Case(c),
        p[17] == Instruction::Forward(83),
        p[18] == Instruction::Forward(2),
        p[19] == Instruction::Forward(1),
        p[20] == Instruction::AddOne(dst),
        p[21] == Instruction::Forward(79),
        p[22] == Instruction::Case(c),
        p[23] == Instruction::Forward(3),
        p[24] == Instruction::Forward(4),
        p[25] == Instruction::Forward(3),
        p[26] == Instruction::AddOne(dst),
        p[27] == Instruction::Backward(19),
        p[28] == Instruction::AddHash(dst),
        p[29] == Instruction::AddOne(c),
        p[30] == Instruction::Backward(22),
        p[31] == Instruction::Case(c),
        p[32] == Instruction::Forward(3),
        p[33] == Instruction::Forward(4),
        p[34] == Instruction::Forward(3),
        p[35] == Instruction::AddHash(dst),
        p[36] == Instruction::Backward(28),
        p[37] == Instruction::AddOne(dst),
        p[38] == Instruction::Backward(30),
        p[39] == Instruction::Case(src),
        p[40] == Instruction::Forward(3),
        p[41] == Instruction::Forward(11),
        p[42] == Instruction::Forward(20),
        p[43] == Instruction::Case(c),
        p[44] == Instruction::Forward(3),
        p[45] == Instruction::Forward(4),
        p[46] == Instruction::Forward(3),
        p[47] == Instruction::AddOne(dst),
        p[48] == Instruction::Backward(40),
        p[49] == Instruction::AddHash(dst),
        p[50] == Instruction::AddOne(c),
        p[51] == Instruction::Backward(43),
        p[52] == Instruction::Case(c),
        p[53] == Instruction::Forward(3),
        p[54] == Instruction::Forward(5),
        p[55] == Instruction::Forward(4),
        p[56] == Instruction::AddHash(dst),
        p[57] == Instruction::AddOne(c),
        p[58] == Instruction::Backward(50),
        p[59] == Instruction::AddOne(dst),
        p[60] == Instruction::AddOne(c),
        p[61] == Instruction::Backward(53),
        p[62] == Instruction::Case(c),
        p[63] == Instruction::Forward(3),
        p[64] == Instruction::Forward(4),
        p[65] == Instruction::Forward(3),
        p[66] == Instruction::AddOne(dst),
        p[67] == Instruction::Backward(59),
        p[68] == Instruction::AddHash(dst),
        p[69] == Instruction::AddOne(c),
        p[70] == Instruction::Backward(62),
        p[71] == Instruction::Case(src),
        p[72] == Instruction::Forward(3),
        p[73] == Instruction::Forward(10),
        p[74] == Instruction::Forward(18),
        p[75] == Instruction::Case(c),
        p[76] == Instruction::Forward(3),
        p[77] == Instruction::Forward(4),
        p[78] == Instruction::Forward(3),
        p[79] == Instruction::AddHash(dst),
        p[80] == Instruction::Backward(72),
        p[81] == Instruction::AddOne(dst),
        p[82] == Instruction::Backward(74),
        p[83] == Instruction::Case(c),
        p[84] == Instruction::Forward(3),
        p[85] == Instruction::Forward(4),
        p[86] == Instruction::Forward(3),
        p[87] == Instruction::AddOne(dst),
        p[88] == Instruction::Backward(80),
        p[89] == Instruction::AddHash(dst),
        p[90] == Instruction::AddOne(c),
        p[91] == Instruction::Backward(83),
        p[92] == Instruction::Case(c),
        p[93] == Instruction::Forward(3),
        p[94] == Instruction::Forward(4),
        p[95] == Instruction::Forward(3),
        p[96] == Instruction::AddHash(dst),
        p[97] == Instruction::Backward(89),
        p[98] == Instruction::AddOne(dst),
        p[99] == Instruction::Backward(91),
{
}


#[verifier::spinoff_prover]
#[verifier::rlimit(60)]
proof fn lemma_bin_add_leaf_eee(s: MachineState, src: usize, dst: usize, t: usize, c: usize)
    requires
        bin_add_ready(s, src, dst, t, c),
        s.pc == 8,
        s.step_count + 6 <= step_limit(s),
        reg(s.registers, t).len() == 0,
        reg(s.registers, src).len() == 0,
        reg(s.registers, c).len() == 0,
    ensures
        run_spec(s) == (bin_add_end(s, src, dst, t, c), RunResult::Halted),
{
    lemma_bin_add_program_at(src, dst, t, c, s.program);
    let s0 = s;
    let s1 = step_spec(s0).0;
    let s2 = step_spec(s1).0;
    let s3 = step_spec(s2).0;
    let s4 = step_spec(s3).0;
    let s5 = step_spec(s4).0;
    let s6 = step_spec(s5).0;
    assert(s1.pc == 9);
    assert(run_spec(s0) == run_spec(s1));
    assert(s2.pc == 12);
    assert(run_spec(s1) == run_spec(s2));
    assert(s3.pc == 13);
    assert(run_spec(s2) == run_spec(s3));
    assert(s4.pc == 16);
    assert(run_spec(s3) == run_spec(s4));
    assert(s5.pc == 17);
    assert(run_spec(s4) == run_spec(s5));
    assert(run_spec(s5) == (s6, RunResult::Halted));
    assert(s6.registers =~= bin_add_end(s, src, dst, t, c).registers);
    assert(s6 == bin_add_end(s, src, dst, t, c));
}


#[verifier::spinoff_prover]
#[verifier::rlimit(60)]
proof fn lemma_bin_add_leaf_eeo(s: MachineState, src: usize, dst: usize, t: usize, c: usize)
    requires
        bin_add_ready(s, src, dst, t, c),
        s.pc == 8,
        s.step_count + 8 <= step_limit(s),
        reg(s.registers, t).len() == 0,
        reg(s.registers, src).len() == 0,
        reg(s.registers, c).len() > 0 && reg(s.registers, c)[0] == Symbol::One,
    ensures
        run_spec(s) == (bin_add_end(s, src, dst, t, c), RunResult::Halted),
{
    lemma_bin_add_program_at(src, dst, t, c, s.program);
    let s0 = s;
    let s1 = step_spec(s0).0;
    let s2 = step_spec(s1).0;
    let s3 = step_spec(s2).0;
    let s4 = step_spec(s3).0;
    let s5 = step_spec(s4).0;
    let s6 = step_spec(s5).0;
    let s7 = step_spec(s6).0;
    let s8 = step_spec(s7).0;
    assert(s1.pc == 9);
    assert(run_spec(s0) == run_spec(s1));
    assert(s2.pc == 12);
    assert(run_spec(s1) == run_spec(s2));
    assert(s3.pc == 13);
    assert(run_spec(s2) == run_spec(s3));
    assert(s4.pc == 16);
    assert(run_spec(s3) == run_spec(s4));
    assert(s5.pc == 18);
    assert(run_spec(s4) == run_spec(s5));
    assert(s6.pc == 20);
    assert(run_spec(s5) == run_spec(s6));
    assert(s7.pc == 21);
    assert(run_spec(s6) == run_spec(s7));
    assert(run_spec(s7) == (s8, RunResult::Halted));
    assert(s8.registers =~= bin_add_end(s, src, dst, t, c).registers);
    assert(s8 == bin_add_end(s, src, dst, t, c));
}


#[verifier::spinoff_prover]
#[verifier::rlimit(60)]
proof fn lemma_bin_add_leaf_eoe(s: MachineState, src: usize, dst: usize, t: usize, c: usize)
    requires
        bin_add_ready(s, src, dst, t, c),
        s.pc == 8,
        s.step_count + 8 <= step_limit(s),
        reg(s.registers, t).len() == 0,
        reg(s.registers, src).len() > 0 && reg(s.registers, src)[0] == Symbol::One,
        reg(s.registers, c).len() == 0,
    ensures
        run_spec(s) == run_spec(bin_add_next(s, src, dst, t, c)),
{
    lemma_bin_add_program_at(src, dst, t, c, s.program);
    let s0 = s;
    let s1 = step_spec(s0).0;
    let s2 = step_spec(s1).0;
    let s3 = step_spec(s2).0;
    let s4 = step_spec(s3).0;
    let s5 = step_spec(s4).0;
    let s6 = step_spec(s5).0;
    let s7 = step_spec(s6).0;
    let s8 = step_spec(s7).0;
    assert(s1.pc == 9);
    assert(run_spec(s0) == run_spec(s1));
    assert(s2.pc == 12);
    assert(run_spec(s1) == run_spec(s2));
    assert(s3.pc == 14);
    assert(run_spec(s2) == run_spec(s3));
    assert(s4.pc == 22);
    assert(run_spec(s3) == run_spec(s4));
    assert(s5.pc == 23);
    assert(run_spec(s4) == run_spec(s5));
    assert(s6.pc == 26);
    assert(run_spec(s5) == run_spec(s6));
    assert(s7.pc == 27);
    assert(run_spec(s6) == run_spec(s7));
    assert(run_spec(s7) == run_spec(s8));
    assert(s8.registers =~= bin_add_next(s, src, dst, t, c).registers);
    assert(s8 == bin_add_next(s, src, dst, t, c));
}


#[verifier::spinoff_prover]
#[verifier::rlimit(60)]
proof fn lemma_bin_add_leaf_eoo(s: MachineState, src: usize, dst: usize, t: usize, c: usize)
    requires
        bin_add_ready(s, src, dst, t, c),
        s.pc == 8,
        s.step_count + 9 <= step_limit(s),
        reg(s.registers, t).len() == 0,
        reg(s.registers, src).len() > 0 && reg(s.registers, src)[0] == Symbol::One,
        reg(s.registers, c).len() > 0 && reg(s.registers, c)[0] == Symbol::One,
    ensures
        run_spec(s) == run_spec(bin_add_next(s, src, dst, t, c)),
{
    lemma_bin_add_program_at(src, dst, t, c, s.program);
    let s0 = s;
    let s1 = step_spec(s0).0;
    let s2 = step_spec(s1).0;
    let s3 = step_spec(s2).0;
    let s4 = step_spec(s3).0;
    let s5 = step_spec(s4).0;
    let s6 = step_spec(s5).0;
    let s7 = step_spec(s6).0;
    let s8 = step_spec(s7).0;
    let s9 = step_spec(s8).0;
    assert(s1.pc == 9);
    assert(run_spec(s0) == run_spec(s1));
    assert(s2.pc == 12);
    assert(run_spec(s1) == run_spec(s2));
    assert(s3.pc == 14);
    assert(run_spec(s2) == run_spec(s3));
    assert(s4.pc == 22);
    assert(run_spec(s3) == run_spec(s4));
    assert(s5.pc == 24);
    assert(run_spec(s4) == run_spec(s5));
    assert(s6.pc == 28);
    assert(run_spec(s5) == run_spec(s6));
    assert(s7.pc == 29);
    assert(run_spec(s6) == run_spec(s7));
    assert(s8.pc == 30);
    assert(run_spec(s7) == run_spec(s8));
    assert(run_spec(s8) == run_spec(s9));
    assert(s9.registers =~= bin_add_next(s, src, dst, t, c).registers);
    assert(s9 == bin_add_next(s, src, dst, t, c));
}


#[verifier::spinoff_prover]
#[verifier::rlimit(60)]
proof fn lemma_bin_add_leaf_ehe(s: MachineState, src: usize, dst: usize, t: usize, c: usize)
    requires
        bin_add_ready(s, src, dst, t, c),
        s.pc == 8,
        s.step_count + 8 <= step_limit(s),
        reg(s.registers, t).len() == 0,
        reg(s.registers, src).len() > 0 && reg(s.registers, src)[0] == Symbol::Hash,
        reg(s.registers, c).len() == 0,
    ensures
        run_spec(s) == run_spec(bin_add_next(s, src, dst, t, c)),
{
    lemma_bin_add_program_at(src, dst, t, c, s.program);
    let s0 = s;
    let s1 = step_spec(s0).0;
    let s2 = step_spec(s1).0;
    let s3 = step_spec(s2).0;
    let s4 = step_spec(s3).0;
    let s5 = step_spec(s4).0;
    let s6 = step_spec(s5).0;
    let s7 = step_spec(s6).0;
    let s8 = step_spec(s7).0;
    assert(s1.pc == 9);
    assert(run_spec(s0) == run_spec(s1));
    assert(s2.pc == 12);
    assert(run_spec(s1) == run_spec(s2));
    assert(s3.pc == 15);
    assert(run_spec(s2) == run_spec(s3));
    assert(s4.pc == 31);
    assert(run_spec(s3) == run_spec(s4));
    assert(s5.pc == 32);
    assert(run_spec(s4) == run_spec(s5));
    assert(s6.pc == 35);
    assert(run_spec(s5) == run_spec(s6));
    assert(s7.pc == 36);
    assert(run_spec(s6) == run_spec(s7));
    assert(run_spec(s7) == run_spec(s8));
    assert(s8.registers =~= bin_add_next(s, src, dst, t, c).registers);
    assert(s8 == bin_add_next(s, src, dst, t, c));
}


#[verifier::spinoff_prover]
#[verifier::rlimit(60)]
proof fn lemma_bin_add_leaf_eho(s: MachineState, src: usize, dst: usize, t: usize, c: usize)
    requires
        bin_add_ready(s, src, dst, t, c),
        s.pc == 8,
        s.step_count + 8 <= step_limit(s),
        reg(s.registers, t).len() == 0,
        reg(s.registers, src).len() > 0 && reg(s.registers, src)[0] == Symbol::Hash,
        reg(s.registers, c).len() > 0 && reg(s.registers, c)[0] == Symbol::One,
    ensures
        run_spec(s) == run_spec(bin_add_next(s, src, dst, t, c)),
{
    lemma_bin_add_program_at(src, dst, t, c, s.program);
    let s0 = s;
    let s1 = step_spec(s0).0;
    let s2 = step_spec(s1).0;
    let s3 = step_spec(s2).0;
    let s4 = step_spec(s3).0;
    let s5 = step_spec(s4).0;
    let s6 = step_spec(s5).0;
    let s7 = step_spec(s6).0;
    let s8 = step_spec(s7).0;
    assert(s1.pc == 9);
    assert(run_spec(s0) == run_spec(s1));
    assert(s2.pc == 12);
    assert(run_spec(s1) == run_spec(s2));
    assert(s3.pc == 15);
    assert(run_spec(s2) == run_spec(s3));
    assert(s4.pc == 31);
    assert(run_spec(s3) == run_spec(s4));
    assert(s5.pc == 33);
    assert(run_spec(s4) == run_spec(s5));
    assert(s6.pc == 37);
    assert(run_spec(s5) == run_spec(s6));
    assert(s7.pc == 38);
    assert(run_spec(s6) == run_spec(s7));
    assert(run_spec(s7) == run_spec(s8));
    assert(s8.registers =~= bin_add_next(s, src, dst, t, c).registers);
    assert(s8 == bin_add_next(s, src, dst, t, c));
}


#[verifier::spinoff_prover]
#[verifier::rlimit(60)]
proof fn lemma_bin_add_leaf_oee(s: MachineState, src: usize, dst: usize, t: usize, c: usize)
    requires
        bin_add_ready(s, src, dst, t, c),
        s.pc == 8,
        s.step_count + 8 <= step_limit(s),
        reg(s.registers, t).len() > 0 && reg(s.registers, t)[0] == Symbol::One,
        reg(s.registers, src).len() == 0,
        reg(s.registers, c).len() == 0,
    ensures
        run_spec(s) == run_spec(bin_add_next(s, src, dst, t, c)),
{
    lemma_bin_add_program_at(src, dst, t, c, s.program);
    let s0 = s;
    let s1 = step_spec(s0).0;
    let s2 = step_spec(s1).0;
    let s3 = step_spec(s2).0;
    let s4 = step_spec(s3).0;
    let s5 = step_spec(s4).0;
    let s6 = step_spec(s5).0;
    let s7 = step_spec(s6).0;
    let s8 = step_spec(s7).0;
    assert(s1.pc == 10);
    assert(run_spec(s0) == run_spec(s1));
    assert(s2.pc == 39);
    assert(run_spec(s1) == run_spec(s2));
    assert(s3.pc == 40);
    assert(run_spec(s2) == run_spec(s3));
    assert(s4.pc == 43);
    assert(run_spec(s3) == run_spec(s4));
    assert(s5.pc == 44);
    assert(run_spec(s4) == run_spec(s5));
    assert(s6.pc == 47);
    assert(run_spec(s5) == run_spec(s6));
    assert(s7.pc == 48);
    assert(run_spec(s6) == run_spec(s7));
    assert(run_spec(s7) == run_spec(s8));
    assert(s8.registers =~= bin_add_next(s, src, dst, t, c).registers);
    assert(s8 == bin_add_next(s, src, dst, t, c));
}


#[verifier::spinoff_prover]
#[verifier::rlimit(60)]
proof fn lemma_bin_add_leaf_oeo(s: MachineState, src: usize, dst: usize, t: usize, c: usize)
    requires
        bin_add_ready(s, src, dst, t, c),
        s.pc == 8,
        s.step_count + 9 <= step_limit(s),
        reg(s.registers, t).len() > 0 && reg(s.registers, t)[0] == Symbol::One,
        reg(s.registers, src).len() == 0,
        reg(s.registers, c).len() > 0 && reg(s.registers, c)[0] == Symbol::One,
    ensures
        run_spec(s) == run_spec(bin_add_next(s, src, dst, t, c)),
{
    lemma_bin_add_program_at(src, dst, t, c, s.program);
    let s0 = s;
    let s1 = step_spec(s0).0;
    let s2 = step_spec(s1).0;
    let s3 = step_spec(s2).0;
    let s4 = step_spec(s3).0;
    let s5 = step_spec(s4).0;
    let s6 = step_spec(s5).0;
    let s7 = step_spec(s6).0;
    let s8 = step_spec(s7).0;
    let s9 = step_spec(s8).0;
    assert(s1.pc == 10);
    assert(run_spec(s0) == run_spec(s1));
    assert(s2.pc == 39);
    assert(run_spec(s1) == run_spec(s2));
    assert(s3.pc == 40);
    assert(run_spec(s2) == run_spec(s3));
    assert(s4.pc == 43);
    assert(run_spec(s3) == run_spec(s4));
    assert(s5.pc == 45);
    assert(run_spec(s4) == run_spec(s5));
    assert(s6.pc == 49);
    assert(run_spec(s5) == run_spec(s6));
    assert(s7.pc == 50);
    assert(run_spec(s6) == run_spec(s7));
    assert(s8.pc == 51);
    assert(run_spec(s7) == run_spec(s8));
    assert(run_spec(s8) == run_spec(s9));
    assert(s9.registers =~= bin_add_next(s, src, dst, t, c).registers);
    assert(s9 == bin_add_next(s, src, dst, t, c));
}


#[verifier::spinoff_prover]
#[verifier::rlimit(60)]
proof fn lemma_bin_add_leaf_ooe(s: MachineState, src: usize, dst: usize, t: usize, c: usize)
    requires
        bin_add_ready(s, src, dst, t, c),
        s.pc == 8,
        s.step_count + 9 <= step_limit(s),
        reg(s.registers, t).len() > 0 && reg(s.registers, t)[0] == Symbol::One,
        reg(s.registers, src).len() > 0 && reg(s.registers, src)[0] == Symbol::One,
        reg(s.registers, c).len() == 0,
    ensures
        run_spec(s) == run_spec(bin_add_next(s, src, dst, t, c)),
{
    lemma_bin_add_program_at(src, dst, t, c, s.program);
    let s0 = s;
    let s1 = step_spec(s0).0;
    let s2 = step_spec(s1).0;
    let s3 = step_spec(s2).0;
    let s4 = step_spec(s3).0;
    let s5 = step_spec(s4).0;
    let s6 = step_spec(s5).0;
    let s7 = step_spec(s6).0;
    let s8 = step_spec(s7).0;
    let s9 = step_spec(s8).0;
    assert(s1.pc == 10);
    assert(run_spec(s0) == run_spec(s1));
    assert(s2.pc == 39);
    assert(run_spec(s1) == run_spec(s2));
    assert(s3.pc == 41);
    assert(run_spec(s2) == run_spec(s3));
    assert(s4.pc == 52);
    assert(run_spec(s3) == run_spec(s4));
    assert(s5.pc == 53);
    assert(run_spec(s4) == run_spec(s5));
    assert(s6.pc == 56);
    assert(run_spec(s5) == run_spec(s6));
    assert(s7.pc == 57);
    assert(run_spec(s6) == run_spec(s7));
    assert(s8.pc == 58);
    assert(run_spec(s7) == run_spec(s8));
    assert(run_spec(s8) == run_spec(s9));
    assert(s9.registers =~= bin_add_next(s, src, dst, t, c).registers);
    assert(s9 == bin_add_next(s, src, dst, t, c));
}


#[verifier::spinoff_prover]
#[verifier::rlimit(60)]
proof fn lemma_bin_add_leaf_ooo(s: MachineState, src: usize, dst: usize, t: usize, c: usize)
    requires
        bin_add_ready(s, src, dst, t, c),
        s.pc == 8,
        s.step_count + 9 <= step_limit(s),
        reg(s.registers, t).len() > 0 && reg(s.registers, t)[0] == Symbol::One,
        reg(s.registers, src).len() > 0 && reg(s.registers, src)[0] == Symbol::One,
        reg(s.registers, c).len() > 0 && reg(s.registers, c)[0] == Symbol::One,
    ensures
        run_spec(s) == run_spec(bin_add_next(s, src, dst, t, c)),
{
    lemma_bin_add_program_at(src, dst, t, c, s.program);
    let s0 = s;
    let s1 = step_spec(s0).0;
    let s2 = step_spec(s1).0;
    let s3 = step_spec(s2).0;
    let s4 = step_spec(s3).0;
    let s5 = step_spec(s4).0;
    let s6 = step_spec(s5).0;
    let s7 = step_spec(s6).0;
    let s8 = step_spec(s7).0;
    let s9 = step_spec(s8).0;
    assert(s1.pc == 10);
    assert(run_spec(s0) == run_spec(s1));
    assert(s2.pc == 39);
    assert(run_spec(s1) == run_spec(s2));
    assert(s3.pc == 41);
    assert(run_spec(s2) == run_spec(s3));
    assert(s4.pc == 52);
    assert(run_spec(s3) == run_spec(s4));
    assert(s5.pc == 54);
    assert(run_spec(s4) == run_spec(s5));
    assert(s6.pc == 59);
    assert(run_spec(s5) == run_spec(s6));
    assert(s7.pc == 60);
    assert(run_spec(s6) == run_spec(s7));
    assert(s8.pc == 61);
    assert(run_spec(s7) == run_spec(s8));
    assert(run_spec(s8) == run_spec(s9));
    assert(s9.registers =~= bin_add_next(s, src, dst, t, c).registers);
    assert(s9 == bin_add_next(s, src, dst, t, c));
}


#[verifier::spinoff_prover]
#[verifier::rlimit(60)]
proof fn lemma_bin_add_leaf_ohe(s: MachineState, src: usize, dst: usize, t: usize, c: usize)
    requires
        bin_add_ready(s, src, dst, t, c),
        s.pc == 8,
        s.step_count + 8 <= step_limit(s),
        reg(s.registers, t).len() > 0 && reg(s.registers, t)[0] == Symbol::One,
        reg(s.registers, src).len() > 0 && reg(s.registers, src)[0] == Symbol::Hash,
        reg(s.registers, c).len() == 0,
    ensures
        run_spec(s) == run_spec(bin_add_next(s, src, dst, t, c)),
{
    lemma_bin_add_program_at(src, dst, t, c, s.program);
    let s0 = s;
    let s1 = step_spec(s0).0;
    let s2 = step_spec(s1).0;
    let s3 = step_spec(s2).0;
    let s4 = step_spec(s3).0;
    let s5 = step_spec(s4).0;
    let s6 = step_spec(s5).0;
    let s7 = step_spec(s6).0;
    let s8 = step_spec(s7).0;
    assert(s1.pc == 10);
    assert(run_spec(s0) == run_spec(s1));
    assert(s2.pc == 39);
    assert(run_spec(s1) == run_spec(s2));
    assert(s3.pc == 42);
    assert(run_spec(s2) == run_spec(s3));
    assert(s4.pc == 62);
    assert(run_spec(s3) == run_spec(s4));
    assert(s5.pc == 63);
    assert(run_spec(s4) == run_spec(s5));
    assert(s6.pc == 66);
    assert(run_spec(s5) == run_spec(s6));
    assert(s7.pc == 67);
    assert(run_spec(s6) == run_spec(s7));
    assert(run_spec(s7) == run_spec(s8));
    assert(s8.registers =~= bin_add_next(s, src, dst, t, c).registers);
    assert(s8 == bin_add_next(s, src, dst, t, c));
}


#[verifier::spinoff_prover]
#[verifier::rlimit(60)]
proof fn lemma_bin_add_leaf_oho(s: MachineState, src: usize, dst: usize, t: usize, c: usize)
    requires
        bin_add_ready(s, src, dst, t, c),
        s.pc == 8,
        s.step_count + 9 <= step_limit(s),
        reg(s.registers, t).len() > 0 && reg(s.registers, t)[0] == Symbol::One,
        reg(s.registers, src).len() > 0 && reg(s.registers, src)[0] == Symbol::Hash,
        reg(s.registers, c).len() > 0 && reg(s.registers, c)[0] == Symbol::One,
    ensures
        run_spec(s) == run_spec(bin_add_next(s, src, dst, t, c)),
{
    lemma_bin_add_program_at(src, dst, t, c, s.program);
    let s0 = s;
    let s1 = step_spec(s0).0;
    let s2 = step_spec(s1).0;
    let s3 = step_spec(s2).0;
    let s4 = step_spec(s3).0;
    let s5 = step_spec(s4).0;
    let s6 = step_spec(s5).0;
    let s7 = step_spec(s6).0;
    let s8 = step_spec(s7).0;
    let s9 = step_spec(s8).0;
    assert(s1.pc == 10);
    assert(run_spec(s0) == run_spec(s1));
    assert(s2.pc == 39);
    assert(run_spec(s1) == run_spec(s2));
    assert(s3.pc == 42);
    assert(run_spec(s2) == run_spec(s3));
    assert(s4.pc == 62);
    assert(run_spec(s3) == run_spec(s4));
    assert(s5.pc == 64);
    assert(run_spec(s4) == run_spec(s5));
    assert(s6.pc == 68);
    assert(run_spec(s5) == run_spec(s6));
    assert(s7.pc == 69);
    assert(run_spec(s6) == run_spec(s7));
    assert(s8.pc == 70);
    assert(run_spec(s7) == run_spec(s8));
    assert(run_spec(s8) == run_spec(s9));
    assert(s9.registers =~= bin_add_next(s, src, dst, t, c).registers);
    assert(s9 == bin_add_next(s, src, dst, t, c));
}


#[verifier::spinoff_prover]
#[verifier::rlimit(60)]
proof fn lemma_bin_add_leaf_hee(s: MachineState, src: usize, dst: usize, t: usize, c: usize)
    requires
        bin_add_ready(s, src, dst, t, c),
        s.pc == 8,
        s.step_count + 8 <= step_limit(s),
        reg(s.registers, t).len() > 0 && reg(s.registers, t)[0] == Symbol::Hash,
        reg(s.registers, src).len() == 0,
        reg(s.registers, c).len() == 0,
    ensures
        run_spec(s) == run_spec(bin_add_next(s, src, dst, t, c)),
{
    lemma_bin_add_program_at(src, dst, t, c, s.program);
    let s0 = s;
    let s1 = step_spec(s0).0;
    let s2 = step_spec(s1).0;
    let s3 = step_spec(s2).0;
    let s4 = step_spec(s3).0;
    let s5 = step_spec(s4).0;
    let s6 = step_spec(s5).0;
    let s7 = step_spec(s6).0;
    let s8 = step_spec(s7).0;
    assert(s1.pc == 11);
    assert(run_spec(s0) == run_spec(s1));
    assert(s2.pc == 71);
    assert(run_spec(s1) == run_spec(s2));
    assert(s3.pc == 72);
    assert(run_spec(s2) == run_spec(s3));
    assert(s4.pc == 75);
    assert(run_spec(s3) == run_spec(s4));
    assert(s5.pc == 76);
    assert(run_spec(s4) == run_spec(s5));
    assert(s6.pc == 79);
    assert(run_spec(s5) == run_spec(s6));
    assert(s7.pc == 80);
    assert(run_spec(s6) == run_spec(s7));
    assert(run_spec(s7) == run_spec(s8));
    assert(s8.registers =~= bin_add_next(s, src, dst, t, c).registers);
    assert(s8 == bin_add_next(s, src, dst, t, c));
}


#[verifier::spinoff_prover]
#[verifier::rlimit(60)]
proof fn lemma_bin_add_leaf_heo(s: MachineState, src: usize, dst: usize, t: usize, c: usize)
    requires
        bin_add_ready(s, src, dst, t, c),
        s.pc == 8,
        s.step_count + 8 <= step_limit(s),
        reg(s.registers, t).len() > 0 && reg(s.registers, t)[0] == Symbol::Hash,
        reg(s.registers, src).len() == 0,
        reg(s.registers, c).len() > 0 && reg(s.registers, c)[0] == Symbol::One,
    ensures
        run_spec(s) == run_spec(bin_add_next(s, src, dst, t, c)),
{
    lemma_bin_add_program_at(src, dst, t, c, s.program);
    let s0 = s;
    let s1 = step_spec(s0).0;
    let s2 = step_spec(s1).0;
    let s3 = step_spec(s2).0;
    let s4 = step_spec(s3).0;
    let s5 = step_spec(s4).0;
    let s6 = step_spec(s5).0;
    let s7 = step_spec(s6).0;
    let s8 = step_spec(s7).0;
    assert(s1.pc == 11);
    assert(run_spec(s0) == run_spec(s1));
    assert(s2.pc == 71);
    assert(run_spec(s1) == run_spec(s2));
    assert(s3.pc == 72);
    assert(run_spec(s2) == run_spec(s3));
    assert(s4.pc == 75);
    assert(run_spec(s3) == run_spec(s4));
    assert(s5.pc == 77);
    assert(run_spec(s4) == run_spec(s5));
    assert(s6.pc == 81);
    assert(run_spec(s5) == run_spec(s6));
    assert(s7.pc == 82);
    assert(run_spec(s6) == run_spec(s7));
    assert(run_spec(s7) == run_spec(s8));
    assert(s8.registers =~= bin_add_next(s, src, dst, t, c).registers);
    assert(s8 == bin_add_next(s, src, dst, t, c));
}


#[verifier::spinoff_prover]
#[verifier::rlimit(60)]
proof fn lemma_bin_add_leaf_hoe(s: MachineState, src: usize, dst: usize, t: usize, c: usize)
    requires
        bin_add_ready(s, src, dst, t, c),
        s.pc == 8,
        s.step_count + 8 <= step_limit(s),
        reg(s.registers, t).len() > 0 && reg(s.registers, t)[0] == Symbol::Hash,
        reg(s.registers, src).len() > 0 && reg(s.registers, src)[0] == Symbol::One,
        reg(s.registers, c).len() == 0,
    ensures
        run_spec(s) == run_spec(bin_add_next(s, src, dst, t, c)),
{
    lemma_bin_add_program_at(src, dst, t, c, s.program);
    let s0 = s;
    let s1 = step_spec(s0).0;
    let s2 = step_spec(s1).0;
    let s3 = step_spec(s2).0;
    let s4 = step_spec(s3).0;
    let s5 = step_spec(s4).0;
    let s6 = step_spec(s5).0;
    let s7 = step_spec(s6).0;
    let s8 = step_spec(s7).0;
    assert(s1.pc == 11);
    assert(run_spec(s0) == run_spec(s1));
    assert(s2.pc == 71);
    assert(run_spec(s1) == run_spec(s2));
    assert(s3.pc == 73);
    assert(run_spec(s2) == run_spec(s3));
    assert(s4.pc == 83);
    assert(run_spec(s3) == run_spec(s4));
    assert(s5.pc == 84);
    assert(run_spec(s4) == run_spec(s5));
    assert(s6.pc == 87);
    assert(run_spec(s5) == run_spec(s6));
    assert(s7.pc == 88);
    assert(run_spec(s6) == run_spec(s7));
    assert(run_spec(s7) == run_spec(s8));
    assert(s8.registers =~= bin_add_next(s, src, dst, t, c).registers);
    assert(s8 == bin_add_next(s, src, dst, t, c));
}


#[verifier::spinoff_prover]
#[verifier::rlimit(60)]
proof fn lemma_bin_add_leaf_hoo(s: MachineState, src: usize, dst: usize, t: usize, c: usize)
    requires
        bin_add_ready(s, src, dst, t, c),
        s.pc == 8,
        s.step_count + 9 <= step_limit(s),
        reg(s.registers, t).len() > 0 && reg(s.registers, t)[0] == Symbol::Hash,
        reg(s.registers, src).len() > 0 && reg(s.registers, src)[0] == Symbol::One,
        reg(s.registers, c).len() > 0 && reg(s.registers, c)[0] == Symbol::One,
    ensures
        run_spec(s) == run_spec(bin_add_next(s, src, dst, t, c)),
{
    lemma_bin_add_program_at(src, dst, t, c, s.program);
    let s0 = s;
    let s1 = step_spec(s0).0;
    let s2 = step_spec(s1).0;
    let s3 = step_spec(s2).0;
    let s4 = step_spec(s3).0;
    let s5 = step_spec(s4).0;
    let s6 = step_spec(s5).0;
    let s7 = step_spec(s6).0;
    let s8 = step_spec(s7).0;
    let s9 = step_spec(s8).0;
    assert(s1.pc == 11);
    assert(run_spec(s0) == run_spec(s1));
    assert(s2.pc == 71);
    assert(run_spec(s1) == run_spec(s2));
    assert(s3.pc == 73);
    assert(run_spec(s2) == run_spec(s3));
    assert(s4.pc == 83);
    assert(run_spec(s3) == run_spec(s4));
    assert(s5.pc == 85);
    assert(run_spec(s4) == run_spec(s5));
    assert(s6.pc == 89);
    assert(run_spec(s5) == run_spec(s6));
    assert(s7.pc == 90);
    assert(run_spec(s6) == run_spec(s7));
    assert(s8.pc == 91);
    assert(run_spec(s7) == run_spec(s8));
    assert(run_spec(s8) == run_spec(s9));
    assert(s9.registers =~= bin_add_next(s, src, dst, t, c).registers);
    assert(s9 == bin_add_next(s, src, dst, t, c));
}


#[verifier::spinoff_prover]
#[verifier::rlimit(60)]
proof fn lemma_bin_add_leaf_hhe(s: MachineState, src: usize, dst: usize, t: usize, c: usize)
    requires
        bin_add_ready(s, src, dst, t, c),
        s.pc == 8,
        s.step_count + 8 <= step_limit(s),
        reg(s.registers, t).len() > 0 && reg(s.registers, t)[0] == Symbol::Hash,
        reg(s.registers, src).len() > 0 && reg(s.registers, src)[0] == Symbol::Hash,
        reg(s.registers, c).len() == 0,
    ensures
        run_spec(s) == run_spec(bin_add_next(s, src, dst, t, c)),
{
    lemma_bin_add_program_at(src, dst, t, c, s.program);
    let s0 = s;
    let s1 = step_spec(s0).0;
    let s2 = step_spec(s1).0;
    let s3 = step_spec(s2).0;
    let s4 = step_spec(s3).0;
    let s5 = step_spec(s4).0;
    let s6 = step_spec(s5).0;
    let s7 = step_spec(s6).0;
    let s8 = step_spec(s7).0;
    assert(s1.pc == 11);
    assert(run_spec(s0) == run_spec(s1));
    assert(s2.pc == 71);
    assert(run_spec(s1) == run_spec(s2));
    assert(s3.pc == 74);
    assert(run_spec(s2) == run_spec(s3));
    assert(s4.pc == 92);
    assert(run_spec(s3) == run_spec(s4));
    assert(s5.pc == 93);
    assert(run_spec(s4) == run_spec(s5));
    assert(s6.pc == 96);
    assert(run_spec(s5) == run_spec(s6));
    assert(s7.pc == 97);
    assert(run_spec(s6) == run_spec(s7));
    assert(run_spec(s7) == run_spec(s8));
    assert(s8.registers =~= bin_add_next(s, src, dst, t, c).registers);
    assert(s8 == bin_add_next(s, src, dst, t, c));
}


#[verifier::spinoff_prover]
#[verifier::rlimit(60)]
proof fn lemma_bin_add_leaf_hho(s: MachineState, src: usize, dst: usize, t: usize, c: usize)
    requires
        bin_add_ready(s, src, dst, t, c),
        s.pc == 8,
        s.step_count + 8 <= step_limit(s),
        reg(s.registers, t).len() > 0 && reg(s.registers, t)[0] == Symbol::Hash,
        reg(s.registers, src).len() > 0 && reg(s.registers, src)[0] == Symbol::Hash,
        reg(s.registers, c).len() > 0 && reg(s.registers, c)[0] == Symbol::One,
    ensures
        run_spec(s) == run_spec(bin_add_next(s, src, dst, t, c)),
{
    lemma_bin_add_program_at(src, dst, t, c, s.program);
    let s0 = s;
    let s1 = step_spec(s0).0;
    let s2 = step_spec(s1).0;
    let s3 = step_spec(s2).0;
    let s4 = step_spec(s3).0;
    let s5 = step_spec(s4).0;
    let s6 = step_spec(s5).0;
    let s7 = step_spec(s6).0;
    let s8 = step_spec(s7).0;
    assert(s1.pc == 11);
    assert(run_spec(s0) == run_spec(s1));
    assert(s2.pc == 71);
    assert(run_spec(s1) == run_spec(s2));
    assert(s3.pc == 74);
    assert(run_spec(s2) == run_spec(s3));
    assert(s4.pc == 92);
    assert(run_spec(s3) == run_spec(s4));
    assert(s5.pc == 94);
    assert(run_spec(s4) == run_spec(s5));
    assert(s6.pc == 98);
    assert(run_spec(s5) == run_spec(s6));
    assert(s7.pc == 99);
    assert(run_spec(s6) == run_spec(s7));
    assert(run_spec(s7) == run_spec(s8));
    assert(s8.registers =~= bin_add_next(s, src, dst, t, c).registers);
    assert(s8 == bin_add_next(s, src, dst, t, c));
}

/// One round of the adding loop, from its start: when `t` and `src` are both
/// empty the run ends in `bin_add_end`; otherwise it goes on from
/// `bin_add_next`.
proof fn lemma_bin_add_round(s: MachineState, src: usize, dst: usize, t: usize, c: usize)
    requires
        bin_add_ready(s, src, dst, t, c),
        s.pc == 8,
        s.step_count + 9 <= step_limit(s),
    ensures
        reg(s.registers, t).len() == 0 && reg(s.registers, src).len() == 0 ==> run_spec(s) == (
            bin_add_end(s, src, dst, t, c),
            RunResult::Halted,
        ),
        !(reg(s.registers, t).len() == 0 && reg(s.registers, src).len() == 0) ==> run_spec(s)
            == run_spec(bin_add_next(s, src, dst, t, c)),
{
    let a = reg(s.registers, t);
    let b = reg(s.registers, src);
    let cw = reg(s.registers, c);
    assert(a.len() == 0 || a[0] == Symbol::One || a[0] == Symbol::Hash);
    assert(b.len() == 0 || b[0] == Symbol::One || b[0] == Symbol::Hash);
    assert(cw.len() == 0 || (cw.len() > 0 && cw[0] == Symbol::One));
    if reg(s.registers, t).len() == 0 && reg(s.registers, src).len() == 0 && reg(s.registers, c).len() == 0 {
        lemma_bin_add_leaf_eee(s, src, dst, t, c);
    }
    if reg(s.registers, t).len() == 0 && reg(s.registers, src).len() == 0 && reg(s.registers, c).len() > 0 && reg(s.registers, c)[0] == Symbol::One {
        lemma_bin_add_leaf_eeo(s, src, dst, t, c);
    }
    if reg(s.registers, t).len() == 0 && reg(s.registers, src).len() > 0 && reg(s.registers, src)[0] == Symbol::One && reg(s.registers, c).len() == 0 {
        lemma_bin_add_leaf_eoe(s, src, dst, t, c);
    }
    if reg(s.registers, t).len() == 0 && reg(s.registers, src).len() > 0 && reg(s.registers, src)[0] == Symbol::One && reg(s.registers, c).len() > 0 && reg(s.registers, c)[0] == Symbol::One {
        lemma_bin_add_leaf_eoo(s, src, dst, t, c);
    }
    if reg(s.registers, t).len() == 0 && reg(s.registers, src).len() > 0 && reg(s.registers, src)[0] == Symbol::Hash && reg(s.registers, c).len() == 0 {
        lemma_bin_add_leaf_ehe(s, src, dst, t, c);
    }
    if reg(s.registers, t).len() == 0 && reg(s.registers, src).len() > 0 && reg(s.registers, src)[0] == Symbol::Hash && reg(s.registers, c).len() > 0 && reg(s.registers, c)[0] == Symbol::One {
        lemma_bin_add_leaf_eho(s, src, dst, t, c);
    }
    if reg(s.registers, t).len() > 0 && reg(s.registers, t)[0] == Symbol::One && reg(s.registers, src).len() == 0 && reg(s.registers, c).len() == 0 {
        lemma_bin_add_leaf_oee(s, src, dst, t, c);
    }
    if reg(s.registers, t).len() > 0 && reg(s.registers, t)[0] == Symbol::One && reg(s.registers, src).len() == 0 && reg(s.registers, c).len() > 0 && reg(s.registers, c)[0] == Symbol::One {
        lemma_bin_add_leaf_oeo(s, src, dst, t, c);
    }
    if reg(s.registers, t).len() > 0 && reg(s.registers, t)[0] == Symbol::One && reg(s.registers, src).len() > 0 && reg(s.registers, src)[0] == Symbol::One && reg(s.registers, c).len() == 0 {
        lemma_bin_add_leaf_ooe(s, src, dst, t, c);
    }
    if reg(s.registers, t).len() > 0 && reg(s.registers, t)[0] == Symbol::One && reg(s.registers, src).len() > 0 && reg(s.registers, src)[0] == Symbol::One && reg(s.registers, c).len() > 0 && reg(s.registers, c)[0] == Symbol::One {
        lemma_bin_add_leaf_ooo(s, src, dst, t, c);
    }
    if reg(s.registers, t).len() > 0 && reg(s.registers, t)[0] == Symbol::One && reg(s.registers, src).len() > 0 && reg(s.registers, src)[0] == Symbol::Hash && reg(s.registers, c).len() == 0 {
        lemma_bin_add_leaf_ohe(s, src, dst, t, c);
    }
    if reg(s.registers, t).len() > 0 && reg(s.registers, t)[0] == Symbol::One && reg(s.registers, src).len() > 0 && reg(s.registers, src)[0] == Symbol::Hash && reg(s.registers, c).len() > 0 && reg(s.registers, c)[0] == Symbol::One {
        lemma_bin_add_leaf_oho(s, src, dst, t, c);
    }
    if reg(s.registers, t).len() > 0 && reg(s.registers, t)[0] == Symbol::Hash && reg(s.registers, src).len() == 0 && reg(s.registers, c).len() == 0 {
        lemma_bin_add_leaf_hee(s, src, dst, t, c);
    }
    if reg(s.registers, t).len() > 0 && reg(s.registers, t)[0] == Symbol::Hash && reg(s.registers, src).len() == 0 && reg(s.registers, c).len() > 0 && reg(s.registers, c)[0] == Symbol::One {
        lemma_bin_add_leaf_heo(s, src, dst, t, c);
    }
    if reg(s.registers, t).len() > 0 && reg(s.registers, t)[0] == Symbol::Hash && reg(s.registers, src).len() > 0 && reg(s.registers, src)[0] == Symbol::One && reg(s.registers, c).len() == 0 {
        lemma_bin_add_leaf_hoe(s, src, dst, t, c);
    }
    if reg(s.registers, t).len() > 0 && reg(s.registers, t)[0] == Symbol::Hash && reg(s.registers, src).len() > 0 && reg(s.registers, src)[0] == Symbol::One && reg(s.registers, c).len() > 0 && reg(s.registers, c)[0] == Symbol::One {
        lemma_bin_add_leaf_hoo(s, src, dst, t, c);
    }
    if reg(s.registers, t).len() > 0 && reg(s.registers, t)[0] == Symbol::Hash && reg(s.registers, src).len() > 0 && reg(s.registers, src)[0] == Symbol::Hash && reg(s.registers, c).len() == 0 {
        lemma_bin_add_leaf_hhe(s, src, dst, t, c);
    }
    if reg(s.registers, t).len() > 0 && reg(s.registers, t)[0] == Symbol::Hash && reg(s.registers, src).len() > 0 && reg(s.registers, src)[0] == Symbol::Hash && reg(s.registers, c).len() > 0 && reg(s.registers, c)[0] == Symbol::One {
        lemma_bin_add_leaf_hho(s, src, dst, t, c);
    }
}

/// Appending a symbol to a word adds its bit at the word's length.
pub proof fn lemma_value_push(w: Seq<Symbol>, x: Symbol)
    ensures
        value(w.push(x)) == value(w) + bit(x) * two_pow(w.len()),
    decreases w.len(),
{
    let wx = w.push(x);
    if w.len() == 0 {
        assert(wx.drop_first() =~= Seq::<Symbol>::empty());
        assert(value(wx) == bit(wx[0]) + 2 * value(wx.drop_first()));
        assert(value(Seq::<Symbol>::empty()) == 0);
        assert(two_pow(0) == 1);
    } else {
        let r = w.drop_first();
        lemma_value_push(r, x);
        assert(wx.drop_first() =~= r.push(x));
        assert(wx[0] == w[0]);
        assert(value(wx) == bit(w[0]) + 2 * value(r.push(x)));
        assert(value(w) == bit(w[0]) + 2 * value(r));
        assert(two_pow(w.len()) == 2 * two_pow(r.len()));
        let tp = two_pow(r.len());
        assert(2 * (value(r) + bit(x) * tp) == 2 * value(r) + bit(x) * (2 * tp)) by (nonlinear_arith);
    }
}

pub(crate) proof fn lemma_value_first(w: Seq<Symbol>)
    ensures
        value(w) == first_bit(w) + 2 * value(rest_word(w)),
{
}

/// What the adding loop has left to do: the value written to `dst`, plus the
/// values of `t`, `src` and the carry at the place of the next bit.
pub open spec fn bin_add_total(s: MachineState, dst: usize, src: usize, t: usize, c: usize) -> nat {
    value(reg(s.registers, dst)) + two_pow(reg(s.registers, dst).len()) * (value(
        reg(s.registers, t),
    ) + value(reg(s.registers, src)) + reg(s.registers, c).len())
}

/// One round of the adding loop keeps what is left to do.
proof fn lemma_bin_add_total_kept(s: MachineState, src: usize, dst: usize, t: usize, c: usize)
    requires
        bin_add_ready(s, src, dst, t, c),
    ensures
        bin_add_total(bin_add_next(s, src, dst, t, c), dst, src, t, c) == bin_add_total(s, dst, src, t, c),
{
    let a = reg(s.registers, t);
    let b = reg(s.registers, src);
    let d = reg(s.registers, dst);
    let cw = reg(s.registers, c);
    let n = bin_add_next(s, src, dst, t, c);
    let sum = bin_add_sum(s, src, t, c);
    let a2 = rest_word(a);
    let b2 = rest_word(b);
    assert(reg(n.registers, t) =~= a2);
    assert(reg(n.registers, src) =~= b2);
    assert(reg(n.registers, dst) == d.push(bit_symbol(sum % 2)));
    let cout: int = if sum >= 2 { 1 } else { 0 };
    assert(reg(n.registers, c).len() == cout);
    lemma_value_push(d, bit_symbol(sum % 2));
    lemma_value_first(a);
    lemma_value_first(b);
    assert(bit(bit_symbol(sum % 2)) == sum % 2);
    let tp = two_pow(d.len());
    assert(two_pow(d.len() + 1) == 2 * tp);
    assert(d.push(bit_symbol(sum % 2)).len() == d.len() + 1);
    assert(sum <= 3);
    assert(sum == sum % 2 + 2 * cout);
    assert(bin_add_total(n, dst, src, t, c) == value(d) + (sum % 2) * tp + (2 * tp) * (value(a2)
        + value(b2) + cout));
    assert(bin_add_total(s, dst, src, t, c) == value(d) + tp * (first_bit(a) + 2 * value(a2)
        + first_bit(b) + 2 * value(b2) + cw.len()));
    assert(sum == first_bit(a) + first_bit(b) + cw.len());
    assert(value(d) + (sum % 2) * tp + (2 * tp) * (value(a2) + value(b2) + cout) == value(d) + tp * (
    sum + 2 * value(a2) + 2 * value(b2))) by (nonlinear_arith)
        requires
            sum == sum % 2 + 2 * cout,
    ;
}

/// The end of the adding loop: with `t` and `src` empty, the carry is
/// written and the run halts.
#[verifier::spinoff_prover]
proof fn lemma_bin_add_finish(s: MachineState, src: usize, dst: usize, t: usize, c: usize)
    requires
        bin_add_ready(s, src, dst, t, c),
        s.pc == 8,
        s.step_count + 9 <= step_limit(s),
        reg(s.registers, t).len() == 0,
        reg(s.registers, src).len() == 0,
    ensures
        run_spec(s).1 == RunResult::Halted,
        run_spec(s).0.pc == 100,
        value(reg(run_spec(s).0.registers, dst)) == bin_add_total(s, dst, src, t, c),
        run_spec(s).0.registers.remove(dst) == s.registers.remove(t).remove(src).remove(c).remove(dst),
{
    let d = reg(s.registers, dst);
    let cw = reg(s.registers, c);
    lemma_bin_add_round(s, src, dst, t, c);
    assert(!s.registers.contains_key(t) && !s.registers.contains_key(src));
    assert(value(reg(s.registers, t)) == 0 && value(reg(s.registers, src)) == 0);
    let e = bin_add_end(s, src, dst, t, c);
    if cw.len() == 0 {
        assert(!s.registers.contains_key(c));
        assert(e.registers.remove(dst) =~= s.registers.remove(t).remove(src).remove(c).remove(dst));
        assert(bin_add_total(s, dst, src, t, c) == value(d) + two_pow(d.len()) * 0);
    } else {
        lemma_value_push(d, Symbol::One);
        assert(reg(e.registers, dst) == d.push(Symbol::One));
        assert(e.registers.remove(dst) =~= s.registers.remove(t).remove(src).remove(c).remove(dst));
        assert(cw.len() == 1);
        assert(bin_add_total(s, dst, src, t, c) == value(d) + two_pow(d.len()) * 1);
    }
}

/// A round of the adding loop keeps the loop's state ready and takes at
/// least one symbol from `t` or `src`.
proof fn lemma_bin_add_next_ready(s: MachineState, src: usize, dst: usize, t: usize, c: usize)
    requires
        bin_add_ready(s, src, dst, t, c),
        !(reg(s.registers, t).len() == 0 && reg(s.registers, src).len() == 0),
    ensures
        bin_add_ready(bin_add_next(s, src, dst, t, c), src, dst, t, c),
        reg(bin_add_next(s, src, dst, t, c).registers, t).len() + reg(
            bin_add_next(s, src, dst, t, c).registers,
            src,
        ).len() < reg(s.registers, t).len() + reg(s.registers, src).len(),
        bin_add_next(s, src, dst, t, c).step_count <= s.step_count + 9,
        bin_add_next(s, src, dst, t, c).registers.remove(t).remove(src).remove(c).remove(dst)
            == s.registers.remove(t).remove(src).remove(c).remove(dst),
{
    let n = bin_add_next(s, src, dst, t, c);
    let sum = bin_add_sum(s, src, t, c);
    assert(reg(n.registers, t) =~= rest_word(reg(s.registers, t)));
    assert(reg(n.registers, src) =~= rest_word(reg(s.registers, src)));
    assert(reg(n.registers, c) =~= (if sum >= 2 {
        seq![Symbol::One]
    } else {
        Seq::<Symbol>::empty()
    }));
    assert(n.registers.remove(t).remove(src).remove(c).remove(dst) =~= s.registers.remove(t).remove(
        src,
    ).remove(c).remove(dst));
}

/// The adding loop, run from its start, halts with `dst` holding the value
/// of what it has left to do, and `t`, `src` and `c` emptied; every other
/// register stays as it was.
#[verifier::spinoff_prover]
proof fn lemma_bin_add_loop(s: MachineState, src: usize, dst: usize, t: usize, c: usize)
    requires
        bin_add_ready(s, src, dst, t, c),
        s.pc == 8,
        s.step_count + 9 * (reg(s.registers, t).len() + reg(s.registers, src).len()) + 9 <= step_limit(s),
    ensures
        run_spec(s).1 == RunResult::Halted,
        run_spec(s).0.pc == 100,
        value(reg(run_spec(s).0.registers, dst)) == bin_add_total(s, dst, src, t, c),
        run_spec(s).0.registers.remove(dst) == s.registers.remove(t).remove(src).remove(c).remove(dst),
    decreases reg(s.registers, t).len() + reg(s.registers, src).len(),
{
    if reg(s.registers, t).len() == 0 && reg(s.registers, src).len() == 0 {
        lemma_bin_add_finish(s, src, dst, t, c);
    } else {
        lemma_bin_add_round(s, src, dst, t, c);
        let n = bin_add_next(s, src, dst, t, c);
        lemma_bin_add_next_ready(s, src, dst, t, c);
        lemma_bin_add_total_kept(s, src, dst, t, c);
        assert(n.pc == 8);
        assert(step_limit(n) == step_limit(s));
        lemma_bin_add_loop(n, src, dst, t, c);
    }
}

/// Running the program of `bin_add src dst t u c`, for four different
/// registers `src`, `dst`, `t` and `c` with `t` and `c` empty: it halts with
/// `dst` holding a word whose value is the sum of the values of `src` and
/// `dst`, `src` emptied, and every other register as it was (`t` and `c`
/// empty again).
pub proof fn lemma_bin_add_adds(s: MachineState, src: usize, dst: usize, t: usize, c: usize)
    requires
        src != dst && src != t && src != c && dst != t && dst != c && t != c,
        s.program == bin_add_program(src, dst, t, c),
        s.pc == 0,
        nonempty_only(s.registers),
        reg(s.registers, t).len() == 0,
        reg(s.registers, c).len() == 0,
        s.step_count + 4 * reg(s.registers, dst).len() + 2 + 9 * (reg(s.registers, dst).len()
            + reg(s.registers, src).len()) + 9 <= step_limit(s),
    ensures
        run_spec(s).1 == RunResult::Halted,
        value(reg(run_spec(s).0.registers, dst)) == value(reg(s.registers, src)) + value(
            reg(s.registers, dst),
        ),
        run_spec(s).0.registers.remove(dst) == s.registers.remove(src).remove(dst),
{
    let x = reg(s.registers, src);
    let y = reg(s.registers, dst);
    lemma_bin_add_program_at(src, dst, t, c, s.program);
    assert(s.program.subrange(0, 8) =~= move_program(dst, t));
    lemma_move_at(s, dst, t, 0);
    let s1 = after_move(s, dst, t, 0);
    assert(reg(s.registers, t) + y =~= y);
    assert(reg(s1.registers, t) == y);
    assert(reg(s1.registers, dst).len() == 0);
    assert(reg(s1.registers, src) == x);
    assert(reg(s1.registers, c).len() == 0);
    assert(reg(s1.registers, c) =~= Seq::<Symbol>::empty());
    assert(bin_add_ready(s1, src, dst, t, c));
    lemma_bin_add_loop(s1, src, dst, t, c);
    assert(value(reg(s1.registers, dst)) == 0);
    assert(reg(s1.registers, dst).len() == 0);
    assert(two_pow(0) == 1);
    assert(two_pow(reg(s1.registers, dst).len()) == 1);
    let tp = two_pow(reg(s1.registers, dst).len());
    let inner: nat = value(reg(s1.registers, t)) + value(reg(s1.registers, src)) + reg(s1.registers, c).len();
    assert(inner == value(y) + value(x));
    assert(tp * inner == inner) by (nonlinear_arith)
        requires
            tp == 1,
    ;
    assert(bin_add_total(s1, dst, src, t, c) == value(y) + value(x));
    assert(!s.registers.contains_key(t) && !s.registers.contains_key(c));
    assert(s1.registers.remove(t).remove(src).remove(c).remove(dst) =~= s.registers.remove(src).remove(dst));
}

} // verus!
