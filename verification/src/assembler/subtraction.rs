//! What the program of the built-in macro `bin_sub` computes when run.
//!
//! `bin_sub src dst t u b` first moves `dst` to `t`, then subtracts `src`
//! from `t` bit by bit, writing the difference to `dst` and keeping the
//! borrow in `b`, which it clears at the end.
use vstd::prelude::*;

use super::addition::{bit_symbol, first_bit, lemma_value_first, lemma_value_push, rest_word};
use super::behaviour::{after_move, lemma_move_at, move_program};
use crate::instruction::Instruction;
use crate::machine::{
    nonempty_only, reg, run_spec, step_limit, step_spec, store, MachineState, RunResult,
};
use crate::types::{bit, lemma_value_bound, two_pow, value, Symbol};

verus! {

/// The state that the program of `bin_sub` runs in: four different
/// registers, the borrow register holding nothing or one `1`.
pub open spec fn bin_sub_ready(s: MachineState, src: usize, dst: usize, t: usize, c: usize) -> bool {
    &&& src != dst && src != t && src != c && dst != t && dst != c && t != c
    &&& s.program == bin_sub_program(src, dst, t, c)
    &&& nonempty_only(s.registers)
    &&& (reg(s.registers, c) == Seq::<Symbol>::empty() || reg(s.registers, c) == seq![Symbol::One])
}

/// The next bit of `t`, less the next bit of `src` and the borrow.
pub open spec fn bin_sub_diff(s: MachineState, src: usize, t: usize, c: usize) -> int {
    first_bit(reg(s.registers, t)) - first_bit(reg(s.registers, src)) - reg(s.registers, c).len()
}

/// The state after one round of the subtracting loop: one bit taken from
/// each of `t` and `src`, the difference's bit written to `dst`, the new
/// borrow in `c`.
pub open spec fn bin_sub_next(s: MachineState, src: usize, dst: usize, t: usize, c: usize) -> MachineState {
    let d = bin_sub_diff(s, src, t, c);
    MachineState {
        registers: store(
            store(
                store(
                    store(s.registers, t, rest_word(reg(s.registers, t))),
                    src,
                    rest_word(reg(s.registers, src)),
                ),
                c,
                if d < 0 {
                    seq![Symbol::One]
                } else {
                    Seq::empty()
                },
            ),
            dst,
            reg(s.registers, dst).push(bit_symbol(if d == 1 || d == -1 { 1 } else { 0 })),
        ),
        pc: 8,
        step_count: s.step_count + if d < 0 {
            9nat
        } else {
            8nat
        },
        ..s
    }
}

/// The state when the subtracting loop ends: the borrow cleared.
pub open spec fn bin_sub_end(s: MachineState, src: usize, dst: usize, t: usize, c: usize) -> MachineState {
    MachineState {
        registers: s.registers.remove(c),
        pc: 101,
        step_count: s.step_count + if reg(s.registers, c).len() == 0 {
            7nat
        } else {
            9nat
        },
        ..s
    }
}

/// The program of `bin_sub src dst t u b` (the fourth argument is not
/// used); its `clear b` is the program of `clear`.
pub open spec fn bin_sub_program(src: usize, dst: usize, t: usize, c: usize) -> Seq<Instruction> {
    seq![
        Instruction::Case(dst),
        Instruction::Forward(7),
        Instruction::Forward(2),
        Instruction::Forward(3),
        Instruction::AddOne(t),
        Instruction::Backward(5),
        Instruction::AddHash(t),
        Instruction::Backward(7),
        Instruction::Case(t),
        Instruction::Forward(3),
        Instruction::Forward(30),
        Instruction::Forward(58),
        Instruction::Case(src),
        Instruction::Forward(3),
        Instruction::Forward(7),
        Instruction::Forward(16),
        Instruction::Case(c),
        Instruction::Forward(3),
        Instruction::Backward(2),
        Instruction::Backward(3),
        Instruction::Forward(81),
        Instruction::Case(c),
        Instruction::Forward(3),
        Instruction::Forward(5),
        Instruction::Forward(4),
        Instruction::AddOne(dst),
        Instruction::AddOne(c),
        Instruction::Backward(19),
        Instruction::AddHash(dst),
        Instruction::AddOne(c),
        Instruction::Backward(22),
        Instruction::Case(c),
        Instruction::Forward(3),
        Instruction::Forward(4),
        Instruction::Forward(3),
        Instruction::AddHash(dst),
        Instruction::Backward(28),
        Instruction::AddOne(dst),
        Instruction::AddOne(c),
        Instruction::Backward(31),
        Instruction::Case(src),
        Instruction::Forward(3),
        Instruction::Forward(10),
        Instruction::Forward(18),
        Instruction::Case(c),
        Instruction::Forward(3),
        Instruction::Forward(4),
        Instruction::Forward(3),
        Instruction::AddOne(dst),
        Instruction::Backward(41),
        Instruction::AddHash(dst),
        Instruction::Backward(43),
        Instruction::Case(c),
        Instruction::Forward(3),
        Instruction::Forward(4),
        Instruction::Forward(3),
        Instruction::AddHash(dst),
        Instruction::Backward(49),
        Instruction::AddOne(dst),
        Instruction::AddOne(c),
        Instruction::Backward(52),
        Instruction::Case(c),
        Instruction::Forward(3),
        Instruction::Forward(4),
        Instruction::Forward(3),
        Instruction::AddOne(dst),
        Instruction::Backward(58),
        Instruction::AddHash(dst),
        Instruction::Backward(60),
        Instruction::Case(src),
        Instruction::Forward(3),
        Instruction::Forward(11),
        Instruction::Forward(20),
        Instruction::Case(c),
        Instruction::Forward(3),
        Instruction::Forward(4),
        Instruction::Forward(3),
        Instruction::AddHash(dst),
        Instruction::Backward(70),
        Instruction::AddOne(dst),
        Instruction::AddOne(c),
        Instruction::Backward(73),
        Instruction::Case(c),
        Instruction::Forward(3),
        Instruction::Forward(5),
        Instruction::Forward(4),
        Instruction::AddOne(dst),
        Instruction::AddOne(c),
        Instruction::Backward(80),
        Instruction::AddHash(dst),
        Instruction::AddOne(c),
        Instruction::Backward(83),
        Instruction::Case(c),
        Instruction::Forward(3),
        Instruction::Forward(4),
        Instruction::Forward(3),
        Instruction::AddHash(dst),
        Instruction::Backward(89),
        Instruction::AddOne(dst),
        Instruction::AddOne(c),
        Instruction::Backward(92),
    ]
}


proof fn lemma_bin_sub_program_at(src: usize, dst: usize, t: usize, c: usize, p: Seq<Instruction>)
    requires
        p == bin_sub_program(src, dst, t, c),
    ensures
        p.len() == 101,
        p[0] == Instruction::Case(dst),
        p[1] == Instruction::Forward(7),
        p[2] == Instruction::Forward(2),
        p[3] == Instruction::Forward(3),
        p[4] == Instruction::AddOne(t),
        p[5] == Instruction::Backward(5),
        p[6] == Instruction::AddHash(t),
        p[7] == Instruction::Backward(7),
        p[8] == Instruction::Case(t),
        p[9] == Instruction::Forward(3),
        p[10] == Instruction::Forward(30),
        p[11] == Instruction::Forward(58),
        p[12] == Instruction::Case(src),
        p[13] == Instruction::Forward(3),
        p[14] == Instruction::Forward(7),
        p[15] == Instruction::Forward(16),
        p[16] == Instruction::Case(c),
        p[17] == Instruction::Forward(3),
        p[18] == Instruction::Backward(2),
        p[19] == Instruction::Backward(3),
        p[20] == Instruction::Forward(81),
        p[21] == Instruction::Case(c),
        p[22] == Instruction::Forward(3),
        p[23] == Instruction::Forward(5),
        p[24] == Instruction::Forward(4),
        p[25] == Instruction::AddOne(dst),
        p[26] == Instruction::AddOne(c),
        p[27] == Instruction::Backward(19),
        p[28] == Instruction::AddHash(dst),
        p[29] == Instruction::AddOne(c),
        p[30] == Instruction::Backward(22),
        p[31] == Instruction::Case(c),
        p[32] == Instruction::Forward(3),
        p[33] == Instruction::Forward(4),
        p[34] == Instruction::Forward(3),
        p[35] == Instruction::AddHash(dst),
        p[36] == Instruction::Backward(28),
        p[37] == Instruction::AddOne(dst),
        p[38] == Instruction::AddOne(c),
        p[39] == Instruction::Backward(31),
        p[40] == Instruction::Case(src),
        p[41] == Instruction::Forward(3),
        p[42] == Instruction::Forward(10),
        p[43] == Instruction::Forward(18),
        p[44] == Instruction::Case(c),
        p[45] == Instruction::Forward(3),
        p[46] == Instruction::Forward(4),
        p[47] == Instruction::Forward(3),
        p[48] == Instruction::AddOne(dst),
        p[49] == Instruction::Backward(41),
        p[50] == Instruction::AddHash(dst),
        p[51] == Instruction::Backward(43),
        p[52] == Instruction::Case(c),
        p[53] == Instruction::Forward(3),
        p[54] == Instruction::Forward(4),
        p[55] == Instruction::Forward(3),
        p[56] == Instruction::AddHash(dst),
        p[57] == Instruction::Backward(49),
        p[58] == Instruction::AddOne(dst),
        p[59] == Instruction::AddOne(c),
        p[60] == Instruction::Backward(52),
        p[61] == Instruction::Case(c),
        p[62] == Instruction::Forward(3),
        p[63] == Instruction::Forward(4),
        p[64] == Instruction::Forward(3),
        p[65] == Instruction::AddOne(dst),
        p[66] == Instruction::Backward(58),
        p[67] == Instruction::AddHash(dst),
        p[68] == Instruction::Backward(60),
        p[69] == Instruction::Case(src),
        p[70] == Instruction::Forward(3),
        p[71] == Instruction::Forward(11),
        p[72] == Instruction::Forward(20),
        p[73] == Instruction::Case(c),
        p[74] == Instruction::Forward(3),
        p[75] == Instruction::Forward(4),
        p[76] == Instruction::Forward(3),
        p[77] == Instruction::AddHash(dst),
        p[78] == Instruction::Backward(70),
        p[79] == Instruction::AddOne(dst),
        p[80] == Instruction::AddOne(c),
        p[81] == Instruction::Backward(73),
        p[82] == Instruction::Case(c),
        p[83] == Instruction::Forward(3),
        p[84] == Instruction::Forward(5),
        p[85] == Instruction::Forward(4),
        p[86] == Instruction::AddOne(dst),
        p[87] == Instruction::AddOne(c),
        p[88] == Instruction::Backward(80),
        p[89] == Instruction::AddHash(dst),
        p[90] == Instruction::AddOne(c),
        p[91] == Instruction::Backward(83),
        p[92] == Instruction::Case(c),
        p[93] == Instruction::Forward(3),
        p[94] == Instruction::Forward(4),
        p[95] == Instruction::Forward(3),
        p[96] == Instruction::AddHash(dst),
        p[97] == Instruction::Backward(89),
        p[98] == Instruction::AddOne(dst),
        p[99] == Instruction::AddOne(c),
        p[100] == Instruction::Backward(92),
{
}


#[verifier::spinoff_prover]
#[verifier::rlimit(60)]
proof fn lemma_bin_sub_leaf_eee(s: MachineState, src: usize, dst: usize, t: usize, c: usize)
    requires
        bin_sub_ready(s, src, dst, t, c),
        s.pc == 8,
        s.step_count + 7 <= step_limit(s),
        reg(s.registers, t).len() == 0,
        reg(s.registers, src).len() == 0,
        reg(s.registers, c).len() == 0,
    ensures
        run_spec(s) == (bin_sub_end(s, src, dst, t, c), RunResult::Halted),
{
    lemma_bin_sub_program_at(src, dst, t, c, s.program);
    let s0 = s;
    let s1 = step_spec(s0).0;
    let s2 = step_spec(s1).0;
    let s3 = step_spec(s2).0;
    let s4 = step_spec(s3).0;
    let s5 = step_spec(s4).0;
    let s6 = step_spec(s5).0;
    let s7 = step_spec(s6).0;
    assert(s1.pc == 9);
    assert(run_spec(s0) == run_spec(s1));
    assert(s2.pc == 12);
    assert(run_spec(s1) == run_spec(s2));
    assert(s3.pc == 13);
    assert(run_spec(s2) == run_spec(s3));
    assert(s4.pc == 16);
    assert(run_spec(s3) == run_spec(s4));
    assert(s5.pc == 17);
    assert(run_spec(s4) == run_spec(s5));
    assert(s6.pc == 20);
    assert(run_spec(s5) == run_spec(s6));
    assert(run_spec(s6) == (s7, RunResult::Halted));
    assert(s7.registers =~= bin_sub_end(s, src, dst, t, c).registers);
    assert(s7 == bin_sub_end(s, src, dst, t, c));
}


#[verifier::spinoff_prover]
#[verifier::rlimit(60)]
proof fn lemma_bin_sub_leaf_eeo(s: MachineState, src: usize, dst: usize, t: usize, c: usize)
    requires
        bin_sub_ready(s, src, dst, t, c),
        s.pc == 8,
        s.step_count + 9 <= step_limit(s),
        reg(s.registers, t).len() == 0,
        reg(s.registers, src).len() == 0,
        reg(s.registers, c).len() > 0 && reg(s.registers, c)[0] == Symbol::One,
    ensures
        run_spec(s) == (bin_sub_end(s, src, dst, t, c), RunResult::Halted),
{
    lemma_bin_sub_program_at(src, dst, t, c, s.program);
    let s0 = s;
    let s1 = step_spec(s0).0;
    let s2 = step_spec(s1).0;
    let s3 = step_spec(s2).0;
    let s4 = step_spec(s3).0;
    let s5 = step_spec(s4).0;
    let s6 = step_spec(s5).0;
    let s7 = step_spec(s6).0;
    let s8 = step_spec(s7).0;
    let s9 = step_spec(s8).0;
    assert(s1.pc == 9);
    assert(run_spec(s0) == run_spec(s1));
    assert(s2.pc == 12);
    assert(run_spec(s1) == run_spec(s2));
    assert(s3.pc == 13);
    assert(run_spec(s2) == run_spec(s3));
    assert(s4.pc == 16);
    assert(run_spec(s3) == run_spec(s4));
    assert(s5.pc == 18);
    assert(run_spec(s4) == run_spec(s5));
    assert(s6.pc == 16);
    assert(run_spec(s5) == run_spec(s6));
    assert(s7.pc == 17);
    assert(run_spec(s6) == run_spec(s7));
    assert(s8.pc == 20);
    assert(run_spec(s7) == run_spec(s8));
    assert(run_spec(s8) == (s9, RunResult::Halted));
    assert(s9.registers =~= bin_sub_end(s, src, dst, t, c).registers);
    assert(s9 == bin_sub_end(s, src, dst, t, c));
}


#[verifier::spinoff_prover]
#[verifier::rlimit(60)]
proof fn lemma_bin_sub_leaf_eoe(s: MachineState, src: usize, dst: usize, t: usize, c: usize)
    requires
        bin_sub_ready(s, src, dst, t, c),
        s.pc == 8,
        s.step_count + 9 <= step_limit(s),
        reg(s.registers, t).len() == 0,
        reg(s.registers, src).len() > 0 && reg(s.registers, src)[0] == Symbol::One,
        reg(s.registers, c).len() == 0,
    ensures
        run_spec(s) == run_spec(bin_sub_next(s, src, dst, t, c)),
{
    lemma_bin_sub_program_at(src, dst, t, c, s.program);
    let s0 = s;
    let s1 = step_spec(s0).0;
    let s2 = step_spec(s1).0;
    let s3 = step_spec(s2).0;
    let s4 = step_spec(s3).0;
    let s5 = step_spec(s4).0;
    let s6 = step_spec(s5).0;
    let s7 = step_spec(s6).0;
    let s8 = step_spec(s7).0;
    let s9 = step_spec(s8).0;
    assert(s1.pc == 9);
    assert(run_spec(s0) == run_spec(s1));
    assert(s2.pc == 12);
    assert(run_spec(s1) == run_spec(s2));
    assert(s3.pc == 14);
    assert(run_spec(s2) == run_spec(s3));
    assert(s4.pc == 21);
    assert(run_spec(s3) == run_spec(s4));
    assert(s5.pc == 22);
    assert(run_spec(s4) == run_spec(s5));
    assert(s6.pc == 25);
    assert(run_spec(s5) == run_spec(s6));
    assert(s7.pc == 26);
    assert(run_spec(s6) == run_spec(s7));
    assert(s8.pc == 27);
    assert(run_spec(s7) == run_spec(s8));
    assert(run_spec(s8) == run_spec(s9));
    assert(s9.registers =~= bin_sub_next(s, src, dst, t, c).registers);
    assert(s9 == bin_sub_next(s, src, dst, t, c));
}


#[verifier::spinoff_prover]
#[verifier::rlimit(60)]
proof fn lemma_bin_sub_leaf_eoo(s: MachineState, src: usize, dst: usize, t: usize, c: usize)
    requires
        bin_sub_ready(s, src, dst, t, c),
        s.pc == 8,
        s.step_count + 9 <= step_limit(s),
        reg(s.registers, t).len() == 0,
        reg(s.registers, src).len() > 0 && reg(s.registers, src)[0] == Symbol::One,
        reg(s.registers, c).len() > 0 && reg(s.registers, c)[0] == Symbol::One,
    ensures
        run_spec(s) == run_spec(bin_sub_next(s, src, dst, t, c)),
{
    lemma_bin_sub_program_at(src, dst, t, c, s.program);
    let s0 = s;
    let s1 = step_spec(s0).0;
    let s2 = step_spec(s1).0;
    let s3 = step_spec(s2).0;
    let s4 = step_spec(s3).0;
    let s5 = step_spec(s4).0;
    let s6 = step_spec(s5).0;
    let s7 = step_spec(s6).0;
    let s8 = step_spec(s7).0;
    let s9 = step_spec(s8).0;
    assert(s1.pc == 9);
    assert(run_spec(s0) == run_spec(s1));
    assert(s2.pc == 12);
    assert(run_spec(s1) == run_spec(s2));
    assert(s3.pc == 14);
    assert(run_spec(s2) == run_spec(s3));
    assert(s4.pc == 21);
    assert(run_spec(s3) == run_spec(s4));
    assert(s5.pc == 23);
    assert(run_spec(s4) == run_spec(s5));
    assert(s6.pc == 28);
    assert(run_spec(s5) == run_spec(s6));
    assert(s7.pc == 29);
    assert(run_spec(s6) == run_spec(s7));
    assert(s8.pc == 30);
    assert(run_spec(s7) == run_spec(s8));
    assert(run_spec(s8) == run_spec(s9));
    assert(s9.registers =~= bin_sub_next(s, src, dst, t, c).registers);
    assert(s9 == bin_sub_next(s, src, dst, t, c));
}


#[verifier::spinoff_prover]
#[verifier::rlimit(60)]
proof fn lemma_bin_sub_leaf_ehe(s: MachineState, src: usize, dst: usize, t: usize, c: usize)
    requires
        bin_sub_ready(s, src, dst, t, c),
        s.pc == 8,
        s.step_count + 8 <= step_limit(s),
        reg(s.registers, t).len() == 0,
        reg(s.registers, src).len() > 0 && reg(s.registers, src)[0] == Symbol::Hash,
        reg(s.registers, c).len() == 0,
    ensures
        run_spec(s) == run_spec(bin_sub_next(s, src, dst, t, c)),
{
    lemma_bin_sub_program_at(src, dst, t, c, s.program);
    let s0 = s;
    let s1 = step_spec(s0).0;
    let s2 = step_spec(s1).0;
    let s3 = step_spec(s2).0;
    let s4 = step_spec(s3).0;
    let s5 = step_spec(s4).0;
    let s6 = step_spec(s5).0;
    let s7 = step_spec(s6).0;
    let s8 = step_spec(s7).0;
    assert(s1.pc == 9);
    assert(run_spec(s0) == run_spec(s1));
    assert(s2.pc == 12);
    assert(run_spec(s1) == run_spec(s2));
    assert(s3.pc == 15);
    assert(run_spec(s2) == run_spec(s3));
    assert(s4.pc == 31);
    assert(run_spec(s3) == run_spec(s4));
    assert(s5.pc == 32);
    assert(run_spec(s4) == run_spec(s5));
    assert(s6.pc == 35);
    assert(run_spec(s5) == run_spec(s6));
    assert(s7.pc == 36);
    assert(run_spec(s6) == run_spec(s7));
    assert(run_spec(s7) == run_spec(s8));
    assert(s8.registers =~= bin_sub_next(s, src, dst, t, c).registers);
    assert(s8 == bin_sub_next(s, src, dst, t, c));
}


#[verifier::spinoff_prover]
#[verifier::rlimit(60)]
proof fn lemma_bin_sub_leaf_eho(s: MachineState, src: usize, dst: usize, t: usize, c: usize)
    requires
        bin_sub_ready(s, src, dst, t, c),
        s.pc == 8,
        s.step_count + 9 <= step_limit(s),
        reg(s.registers, t).len() == 0,
        reg(s.registers, src).len() > 0 && reg(s.registers, src)[0] == Symbol::Hash,
        reg(s.registers, c).len() > 0 && reg(s.registers, c)[0] == Symbol::One,
    ensures
        run_spec(s) == run_spec(bin_sub_next(s, src, dst, t, c)),
{
    lemma_bin_sub_program_at(src, dst, t, c, s.program);
    let s0 = s;
    let s1 = step_spec(s0).0;
    let s2 = step_spec(s1).0;
    let s3 = step_spec(s2).0;
    let s4 = step_spec(s3).0;
    let s5 = step_spec(s4).0;
    let s6 = step_spec(s5).0;
    let s7 = step_spec(s6).0;
    let s8 = step_spec(s7).0;
    let s9 = step_spec(s8).0;
    assert(s1.pc == 9);
    assert(run_spec(s0) == run_spec(s1));
    assert(s2.pc == 12);
    assert(run_spec(s1) == run_spec(s2));
    assert(s3.pc == 15);
    assert(run_spec(s2) == run_spec(s3));
    assert(s4.pc == 31);
    assert(run_spec(s3) == run_spec(s4));
    assert(s5.pc == 33);
    assert(run_spec(s4) == run_spec(s5));
    assert(s6.pc == 37);
    assert(run_spec(s5) == run_spec(s6));
    assert(s7.pc == 38);
    assert(run_spec(s6) == run_spec(s7));
    assert(s8.pc == 39);
    assert(run_spec(s7) == run_spec(s8));
    assert(run_spec(s8) == run_spec(s9));
    assert(s9.registers =~= bin_sub_next(s, src, dst, t, c).registers);
    assert(s9 == bin_sub_next(s, src, dst, t, c));
}


#[verifier::spinoff_prover]
#[verifier::rlimit(60)]
proof fn lemma_bin_sub_leaf_oee(s: MachineState, src: usize, dst: usize, t: usize, c: usize)
    requires
        bin_sub_ready(s, src, dst, t, c),
        s.pc == 8,
        s.step_count + 8 <= step_limit(s),
        reg(s.registers, t).len() > 0 && reg(s.registers, t)[0] == Symbol::One,
        reg(s.registers, src).len() == 0,
        reg(s.registers, c).len() == 0,
    ensures
        run_spec(s) == run_spec(bin_sub_next(s, src, dst, t, c)),
{
    lemma_bin_sub_program_at(src, dst, t, c, s.program);
    let s0 = s;
    let s1 = step_spec(s0).0;
    let s2 = step_spec(s1).0;
    let s3 = step_spec(s2).0;
    let s4 = step_spec(s3).0;
    let s5 = step_spec(s4).0;
    let s6 = step_spec(s5).0;
    let s7 = step_spec(s6).0;
    let s8 = step_spec(s7).0;
    assert(s1.pc == 10);
    assert(run_spec(s0) == run_spec(s1));
    assert(s2.pc == 40);
    assert(run_spec(s1) == run_spec(s2));
    assert(s3.pc == 41);
    assert(run_spec(s2) == run_spec(s3));
    assert(s4.pc == 44);
    assert(run_spec(s3) == run_spec(s4));
    assert(s5.pc == 45);
    assert(run_spec(s4) == run_spec(s5));
    assert(s6.pc == 48);
    assert(run_spec(s5) == run_spec(s6));
    assert(s7.pc == 49);
    assert(run_spec(s6) == run_spec(s7));
    assert(run_spec(s7) == run_spec(s8));
    assert(s8.registers =~= bin_sub_next(s, src, dst, t, c).registers);
    assert(s8 == bin_sub_next(s, src, dst, t, c));
}


#[verifier::spinoff_prover]
#[verifier::rlimit(60)]
proof fn lemma_bin_sub_leaf_oeo(s: MachineState, src: usize, dst: usize, t: usize, c: usize)
    requires
        bin_sub_ready(s, src, dst, t, c),
        s.pc == 8,
        s.step_count + 8 <= step_limit(s),
        reg(s.registers, t).len() > 0 && reg(s.registers, t)[0] == Symbol::One,
        reg(s.registers, src).len() == 0,
        reg(s.registers, c).len() > 0 && reg(s.registers, c)[0] == Symbol::One,
    ensures
        run_spec(s) == run_spec(bin_sub_next(s, src, dst, t, c)),
{
    lemma_bin_sub_program_at(src, dst, t, c, s.program);
    let s0 = s;
    let s1 = step_spec(s0).0;
    let s2 = step_spec(s1).0;
    let s3 = step_spec(s2).0;
    let s4 = step_spec(s3).0;
    let s5 = step_spec(s4).0;
    let s6 = step_spec(s5).0;
    let s7 = step_spec(s6).0;
    let s8 = step_spec(s7).0;
    assert(s1.pc == 10);
    assert(run_spec(s0) == run_spec(s1));
    assert(s2.pc == 40);
    assert(run_spec(s1) == run_spec(s2));
    assert(s3.pc == 41);
    assert(run_spec(s2) == run_spec(s3));
    assert(s4.pc == 44);
    assert(run_spec(s3) == run_spec(s4));
    assert(s5.pc == 46);
    assert(run_spec(s4) == run_spec(s5));
    assert(s6.pc == 50);
    assert(run_spec(s5) == run_spec(s6));
    assert(s7.pc == 51);
    assert(run_spec(s6) == run_spec(s7));
    assert(run_spec(s7) == run_spec(s8));
    assert(s8.registers =~= bin_sub_next(s, src, dst, t, c).registers);
    assert(s8 == bin_sub_next(s, src, dst, t, c));
}


#[verifier::spinoff_prover]
#[verifier::rlimit(60)]
proof fn lemma_bin_sub_leaf_ooe(s: MachineState, src: usize, dst: usize, t: usize, c: usize)
    requires
        bin_sub_ready(s, src, dst, t, c),
        s.pc == 8,
        s.step_count + 8 <= step_limit(s),
        reg(s.registers, t).len() > 0 && reg(s.registers, t)[0] == Symbol::One,
        reg(s.registers, src).len() > 0 && reg(s.registers, src)[0] == Symbol::One,
        reg(s.registers, c).len() == 0,
    ensures
        run_spec(s) == run_spec(bin_sub_next(s, src, dst, t, c)),
{
    lemma_bin_sub_program_at(src, dst, t, c, s.program);
    let s0 = s;
    let s1 = step_spec(s0).0;
    let s2 = step_spec(s1).0;
    let s3 = step_spec(s2).0;
    let s4 = step_spec(s3).0;
    let s5 = step_spec(s4).0;
    let s6 = step_spec(s5).0;
    let s7 = step_spec(s6).0;
    let s8 = step_spec(s7).0;
    assert(s1.pc == 10);
    assert(run_spec(s0) == run_spec(s1));
    assert(s2.pc == 40);
    assert(run_spec(s1) == run_spec(s2));
    assert(s3.pc == 42);
    assert(run_spec(s2) == run_spec(s3));
    assert(s4.pc == 52);
    assert(run_spec(s3) == run_spec(s4));
    assert(s5.pc == 53);
    assert(run_spec(s4) == run_spec(s5));
    assert(s6.pc == 56);
    assert(run_spec(s5) == run_spec(s6));
    assert(s7.pc == 57);
    assert(run_spec(s6) == run_spec(s7));
    assert(run_spec(s7) == run_spec(s8));
    assert(s8.registers =~= bin_sub_next(s, src, dst, t, c).registers);
    assert(s8 == bin_sub_next(s, src, dst, t, c));
}


#[verifier::spinoff_prover]
#[verifier::rlimit(60)]
proof fn lemma_bin_sub_leaf_ooo(s: MachineState, src: usize, dst: usize, t: usize, c: usize)
    requires
        bin_sub_ready(s, src, dst, t, c),
        s.pc == 8,
        s.step_count + 9 <= step_limit(s),
        reg(s.registers, t).len() > 0 && reg(s.registers, t)[0] == Symbol::One,
        reg(s.registers, src).len() > 0 && reg(s.registers, src)[0] == Symbol::One,
        reg(s.registers, c).len() > 0 && reg(s.registers, c)[0] == Symbol::One,
    ensures
        run_spec(s) == run_spec(bin_sub_next(s, src, dst, t, c)),
{
    lemma_bin_sub_program_at(src, dst, t, c, s.program);
    let s0 = s;
    let s1 = step_spec(s0).0;
    let s2 = step_spec(s1).0;
    let s3 = step_spec(s2).0;
    let s4 = step_spec(s3).0;
    let s5 = step_spec(s4).0;
    let s6 = step_spec(s5).0;
    let s7 = step_spec(s6).0;
    let s8 = step_spec(s7).0;
    let s9 = step_spec(s8).0;
    assert(s1.pc == 10);
    assert(run_spec(s0) == run_spec(s1));
    assert(s2.pc == 40);
    assert(run_spec(s1) == run_spec(s2));
    assert(s3.pc == 42);
    assert(run_spec(s2) == run_spec(s3));
    assert(s4.pc == 52);
    assert(run_spec(s3) == run_spec(s4));
    assert(s5.pc == 54);
    assert(run_spec(s4) == run_spec(s5));
    assert(s6.pc == 58);
    assert(run_spec(s5) == run_spec(s6));
    assert(s7.pc == 59);
    assert(run_spec(s6) == run_spec(s7));
    assert(s8.pc == 60);
    assert(run_spec(s7) == run_spec(s8));
    assert(run_spec(s8) == run_spec(s9));
    assert(s9.registers =~= bin_sub_next(s, src, dst, t, c).registers);
    assert(s9 == bin_sub_next(s, src, dst, t, c));
}


#[verifier::spinoff_prover]
#[verifier::rlimit(60)]
proof fn lemma_bin_sub_leaf_ohe(s: MachineState, src: usize, dst: usize, t: usize, c: usize)
    requires
        bin_sub_ready(s, src, dst, t, c),
        s.pc == 8,
        s.step_count + 8 <= step_limit(s),
        reg(s.registers, t).len() > 0 && reg(s.registers, t)[0] == Symbol::One,
        reg(s.registers, src).len() > 0 && reg(s.registers, src)[0] == Symbol::Hash,
        reg(s.registers, c).len() == 0,
    ensures
        run_spec(s) == run_spec(bin_sub_next(s, src, dst, t, c)),
{
    lemma_bin_sub_program_at(src, dst, t, c, s.program);
    let s0 = s;
    let s1 = step_spec(s0).0;
    let s2 = step_spec(s1).0;
    let s3 = step_spec(s2).0;
    let s4 = step_spec(s3).0;
    let s5 = step_spec(s4).0;
    let s6 = step_spec(s5).0;
    let s7 = step_spec(s6).0;
    let s8 = step_spec(s7).0;
    assert(s1.pc == 10);
    assert(run_spec(s0) == run_spec(s1));
    assert(s2.pc == 40);
    assert(run_spec(s1) == run_spec(s2));
    assert(s3.pc == 43);
    assert(run_spec(s2) == run_spec(s3));
    assert(s4.pc == 61);
    assert(run_spec(s3) == run_spec(s4));
    assert(s5.pc == 62);
    assert(run_spec(s4) == run_spec(s5));
    assert(s6.pc == 65);
    assert(run_spec(s5) == run_spec(s6));
    assert(s7.pc == 66);
    assert(run_spec(s6) == run_spec(s7));
    assert(run_spec(s7) == run_spec(s8));
    assert(s8.registers =~= bin_sub_next(s, src, dst, t, c).registers);
    assert(s8 == bin_sub_next(s, src, dst, t, c));
}


#[verifier::spinoff_prover]
#[verifier::rlimit(60)]
proof fn lemma_bin_sub_leaf_oho(s: MachineState, src: usize, dst: usize, t: usize, c: usize)
    requires
        bin_sub_ready(s, src, dst, t, c),
        s.pc == 8,
        s.step_count + 8 <= step_limit(s),
        reg(s.registers, t).len() > 0 && reg(s.registers, t)[0] == Symbol::One,
        reg(s.registers, src).len() > 0 && reg(s.registers, src)[0] == Symbol::Hash,
        reg(s.registers, c).len() > 0 && reg(s.registers, c)[0] == Symbol::One,
    ensures
        run_spec(s) == run_spec(bin_sub_next(s, src, dst, t, c)),
{
    lemma_bin_sub_program_at(src, dst, t, c, s.program);
    let s0 = s;
    let s1 = step_spec(s0).0;
    let s2 = step_spec(s1).0;
    let s3 = step_spec(s2).0;
    let s4 = step_spec(s3).0;
    let s5 = step_spec(s4).0;
    let s6 = step_spec(s5).0;
    let s7 = step_spec(s6).0;
    let s8 = step_spec(s7).0;
    assert(s1.pc == 10);
    assert(run_spec(s0) == run_spec(s1));
    assert(s2.pc == 40);
    assert(run_spec(s1) == run_spec(s2));
    assert(s3.pc == 43);
    assert(run_spec(s2) == run_spec(s3));
    assert(s4.pc == 61);
    assert(run_spec(s3) == run_spec(s4));
    assert(s5.pc == 63);
    assert(run_spec(s4) == run_spec(s5));
    assert(s6.pc == 67);
    assert(run_spec(s5) == run_spec(s6));
    assert(s7.pc == 68);
    assert(run_spec(s6) == run_spec(s7));
    assert(run_spec(s7) == run_spec(s8));
    assert(s8.registers =~= bin_sub_next(s, src, dst, t, c).registers);
    assert(s8 == bin_sub_next(s, src, dst, t, c));
}


#[verifier::spinoff_prover]
#[verifier::rlimit(60)]
proof fn lemma_bin_sub_leaf_hee(s: MachineState, src: usize, dst: usize, t: usize, c: usize)
    requires
        bin_sub_ready(s, src, dst, t, c),
        s.pc == 8,
        s.step_count + 8 <= step_limit(s),
        reg(s.registers, t).len() > 0 && reg(s.registers, t)[0] == Symbol::Hash,
        reg(s.registers, src).len() == 0,
        reg(s.registers, c).len() == 0,
    ensures
        run_spec(s) == run_spec(bin_sub_next(s, src, dst, t, c)),
{
    lemma_bin_sub_program_at(src, dst, t, c, s.program);
    let s0 = s;
    let s1 = step_spec(s0).0;
    let s2 = step_spec(s1).0;
    let s3 = step_spec(s2).0;
    let s4 = step_spec(s3).0;
    let s5 = step_spec(s4).0;
    let s6 = step_spec(s5).0;
    let s7 = step_spec(s6).0;
    let s8 = step_spec(s7).0;
    assert(s1.pc == 11);
    assert(run_spec(s0) == run_spec(s1));
    assert(s2.pc == 69);
    assert(run_spec(s1) == run_spec(s2));
    assert(s3.pc == 70);
    assert(run_spec(s2) == run_spec(s3));
    assert(s4.pc == 73);
    assert(run_spec(s3) == run_spec(s4));
    assert(s5.pc == 74);
    assert(run_spec(s4) == run_spec(s5));
    assert(s6.pc == 77);
    assert(run_spec(s5) == run_spec(s6));
    assert(s7.pc == 78);
    assert(run_spec(s6) == run_spec(s7));
    assert(run_spec(s7) == run_spec(s8));
    assert(s8.registers =~= bin_sub_next(s, src, dst, t, c).registers);
    assert(s8 == bin_sub_next(s, src, dst, t, c));
}


#[verifier::spinoff_prover]
#[verifier::rlimit(60)]
proof fn lemma_bin_sub_leaf_heo(s: MachineState, src: usize, dst: usize, t: usize, c: usize)
    requires
        bin_sub_ready(s, src, dst, t, c),
        s.pc == 8,
        s.step_count + 9 <= step_limit(s),
        reg(s.registers, t).len() > 0 && reg(s.registers, t)[0] == Symbol::Hash,
        reg(s.registers, src).len() == 0,
        reg(s.registers, c).len() > 0 && reg(s.registers, c)[0] == Symbol::One,
    ensures
        run_spec(s) == run_spec(bin_sub_next(s, src, dst, t, c)),
{
    lemma_bin_sub_program_at(src, dst, t, c, s.program);
    let s0 = s;
    let s1 = step_spec(s0).0;
    let s2 = step_spec(s1).0;
    let s3 = step_spec(s2).0;
    let s4 = step_spec(s3).0;
    let s5 = step_spec(s4).0;
    let s6 = step_spec(s5).0;
    let s7 = step_spec(s6).0;
    let s8 = step_spec(s7).0;
    let s9 = step_spec(s8).0;
    assert(s1.pc == 11);
    assert(run_spec(s0) == run_spec(s1));
    assert(s2.pc == 69);
    assert(run_spec(s1) == run_spec(s2));
    assert(s3.pc == 70);
    assert(run_spec(s2) == run_spec(s3));
    assert(s4.pc == 73);
    assert(run_spec(s3) == run_spec(s4));
    assert(s5.pc == 75);
    assert(run_spec(s4) == run_spec(s5));
    assert(s6.pc == 79);
    assert(run_spec(s5) == run_spec(s6));
    assert(s7.pc == 80);
    assert(run_spec(s6) == run_spec(s7));
    assert(s8.pc == 81);
    assert(run_spec(s7) == run_spec(s8));
    assert(run_spec(s8) == run_spec(s9));
    assert(s9.registers =~= bin_sub_next(s, src, dst, t, c).registers);
    assert(s9 == bin_sub_next(s, src, dst, t, c));
}


#[verifier::spinoff_prover]
#[verifier::rlimit(60)]
proof fn lemma_bin_sub_leaf_hoe(s: MachineState, src: usize, dst: usize, t: usize, c: usize)
    requires
        bin_sub_ready(s, src, dst, t, c),
        s.pc == 8,
        s.step_count + 9 <= step_limit(s),
        reg(s.registers, t).len() > 0 && reg(s.registers, t)[0] == Symbol::Hash,
        reg(s.registers, src).len() > 0 && reg(s.registers, src)[0] == Symbol::One,
        reg(s.registers, c).len() == 0,
    ensures
        run_spec(s) == run_spec(bin_sub_next(s, src, dst, t, c)),
{
    lemma_bin_sub_program_at(src, dst, t, c, s.program);
    let s0 = s;
    let s1 = step_spec(s0).0;
    let s2 = step_spec(s1).0;
    let s3 = step_spec(s2).0;
    let s4 = step_spec(s3).0;
    let s5 = step_spec(s4).0;
    let s6 = step_spec(s5).0;
    let s7 = step_spec(s6).0;
    let s8 = step_spec(s7).0;
    let s9 = step_spec(s8).0;
    assert(s1.pc == 11);
    assert(run_spec(s0) == run_spec(s1));
    assert(s2.pc == 69);
    assert(run_spec(s1) == run_spec(s2));
    assert(s3.pc == 71);
    assert(run_spec(s2) == run_spec(s3));
    assert(s4.pc == 82);
    assert(run_spec(s3) == run_spec(s4));
    assert(s5.pc == 83);
    assert(run_spec(s4) == run_spec(s5));
    assert(s6.pc == 86);
    assert(run_spec(s5) == run_spec(s6));
    assert(s7.pc == 87);
    assert(run_spec(s6) == run_spec(s7));
    assert(s8.pc == 88);
    assert(run_spec(s7) == run_spec(s8));
    assert(run_spec(s8) == run_spec(s9));
    assert(s9.registers =~= bin_sub_next(s, src, dst, t, c).registers);
    assert(s9 == bin_sub_next(s, src, dst, t, c));
}


#[verifier::spinoff_prover]
#[verifier::rlimit(60)]
proof fn lemma_bin_sub_leaf_hoo(s: MachineState, src: usize, dst: usize, t: usize, c: usize)
    requires
        bin_sub_ready(s, src, dst, t, c),
        s.pc == 8,
        s.step_count + 9 <= step_limit(s),
        reg(s.registers, t).len() > 0 && reg(s.registers, t)[0] == Symbol::Hash,
        reg(s.registers, src).len() > 0 && reg(s.registers, src)[0] == Symbol::One,
        reg(s.registers, c).len() > 0 && reg(s.registers, c)[0] == Symbol::One,
    ensures
        run_spec(s) == run_spec(bin_sub_next(s, src, dst, t, c)),
{
    lemma_bin_sub_program_at(src, dst, t, c, s.program);
    let s0 = s;
    let s1 = step_spec(s0).0;
    let s2 = step_spec(s1).0;
    let s3 = step_spec(s2).0;
    let s4 = step_spec(s3).0;
    let s5 = step_spec(s4).0;
    let s6 = step_spec(s5).0;
    let s7 = step_spec(s6).0;
    let s8 = step_spec(s7).0;
    let s9 = step_spec(s8).0;
    assert(s1.pc == 11);
    assert(run_spec(s0) == run_spec(s1));
    assert(s2.pc == 69);
    assert(run_spec(s1) == run_spec(s2));
    assert(s3.pc == 71);
    assert(run_spec(s2) == run_spec(s3));
    assert(s4.pc == 82);
    assert(run_spec(s3) == run_spec(s4));
    assert(s5.pc == 84);
    assert(run_spec(s4) == run_spec(s5));
    assert(s6.pc == 89);
    assert(run_spec(s5) == run_spec(s6));
    assert(s7.pc == 90);
    assert(run_spec(s6) == run_spec(s7));
    assert(s8.pc == 91);
    assert(run_spec(s7) == run_spec(s8));
    assert(run_spec(s8) == run_spec(s9));
    assert(s9.registers =~= bin_sub_next(s, src, dst, t, c).registers);
    assert(s9 == bin_sub_next(s, src, dst, t, c));
}


#[verifier::spinoff_prover]
#[verifier::rlimit(60)]
proof fn lemma_bin_sub_leaf_hhe(s: MachineState, src: usize, dst: usize, t: usize, c: usize)
    requires
        bin_sub_ready(s, src, dst, t, c),
        s.pc == 8,
        s.step_count + 8 <= step_limit(s),
        reg(s.registers, t).len() > 0 && reg(s.registers, t)[0] == Symbol::Hash,
        reg(s.registers, src).len() > 0 && reg(s.registers, src)[0] == Symbol::Hash,
        reg(s.registers, c).len() == 0,
    ensures
        run_spec(s) == run_spec(bin_sub_next(s, src, dst, t, c)),
{
    lemma_bin_sub_program_at(src, dst, t, c, s.program);
    let s0 = s;
    let s1 = step_spec(s0).0;
    let s2 = step_spec(s1).0;
    let s3 = step_spec(s2).0;
    let s4 = step_spec(s3).0;
    let s5 = step_spec(s4).0;
    let s6 = step_spec(s5).0;
    let s7 = step_spec(s6).0;
    let s8 = step_spec(s7).0;
    assert(s1.pc == 11);
    assert(run_spec(s0) == run_spec(s1));
    assert(s2.pc == 69);
    assert(run_spec(s1) == run_spec(s2));
    assert(s3.pc == 72);
    assert(run_spec(s2) == run_spec(s3));
    assert(s4.pc == 92);
    assert(run_spec(s3) == run_spec(s4));
    assert(s5.pc == 93);
    assert(run_spec(s4) == run_spec(s5));
    assert(s6.pc == 96);
    assert(run_spec(s5) == run_spec(s6));
    assert(s7.pc == 97);
    assert(run_spec(s6) == run_spec(s7));
    assert(run_spec(s7) == run_spec(s8));
    assert(s8.registers =~= bin_sub_next(s, src, dst, t, c).registers);
    assert(s8 == bin_sub_next(s, src, dst, t, c));
}


#[verifier::spinoff_prover]
#[verifier::rlimit(60)]
proof fn lemma_bin_sub_leaf_hho(s: MachineState, src: usize, dst: usize, t: usize, c: usize)
    requires
        bin_sub_ready(s, src, dst, t, c),
        s.pc == 8,
        s.step_count + 9 <= step_limit(s),
        reg(s.registers, t).len() > 0 && reg(s.registers, t)[0] == Symbol::Hash,
        reg(s.registers, src).len() > 0 && reg(s.registers, src)[0] == Symbol::Hash,
        reg(s.registers, c).len() > 0 && reg(s.registers, c)[0] == Symbol::One,
    ensures
        run_spec(s) == run_spec(bin_sub_next(s, src, dst, t, c)),
{
    lemma_bin_sub_program_at(src, dst, t, c, s.program);
    let s0 = s;
    let s1 = step_spec(s0).0;
    let s2 = step_spec(s1).0;
    let s3 = step_spec(s2).0;
    let s4 = step_spec(s3).0;
    let s5 = step_spec(s4).0;
    let s6 = step_spec(s5).0;
    let s7 = step_spec(s6).0;
    let s8 = step_spec(s7).0;
    let s9 = step_spec(s8).0;
    assert(s1.pc == 11);
    assert(run_spec(s0) == run_spec(s1));
    assert(s2.pc == 69);
    assert(run_spec(s1) == run_spec(s2));
    assert(s3.pc == 72);
    assert(run_spec(s2) == run_spec(s3));
    assert(s4.pc == 92);
    assert(run_spec(s3) == run_spec(s4));
    assert(s5.pc == 94);
    assert(run_spec(s4) == run_spec(s5));
    assert(s6.pc == 98);
    assert(run_spec(s5) == run_spec(s6));
    assert(s7.pc == 99);
    assert(run_spec(s6) == run_spec(s7));
    assert(s8.pc == 100);
    assert(run_spec(s7) == run_spec(s8));
    assert(run_spec(s8) == run_spec(s9));
    assert(s9.registers =~= bin_sub_next(s, src, dst, t, c).registers);
    assert(s9 == bin_sub_next(s, src, dst, t, c));
}

/// One round of the subtracting loop, from its start: when `t` and `src` are
/// both empty the run ends in `bin_sub_end`; otherwise it goes on from
/// `bin_sub_next`.
proof fn lemma_bin_sub_round(s: MachineState, src: usize, dst: usize, t: usize, c: usize)
    requires
        bin_sub_ready(s, src, dst, t, c),
        s.pc == 8,
        s.step_count + 9 <= step_limit(s),
    ensures
        reg(s.registers, t).len() == 0 && reg(s.registers, src).len() == 0 ==> run_spec(s) == (
            bin_sub_end(s, src, dst, t, c),
            RunResult::Halted,
        ),
        !(reg(s.registers, t).len() == 0 && reg(s.registers, src).len() == 0) ==> run_spec(s)
            == run_spec(bin_sub_next(s, src, dst, t, c)),
{
    let a = reg(s.registers, t);
    let b = reg(s.registers, src);
    let cw = reg(s.registers, c);
    assert(a.len() == 0 || a[0] == Symbol::One || a[0] == Symbol::Hash);
    assert(b.len() == 0 || b[0] == Symbol::One || b[0] == Symbol::Hash);
    assert(cw.len() == 0 || (cw.len() > 0 && cw[0] == Symbol::One));
    if reg(s.registers, t).len() == 0 && reg(s.registers, src).len() == 0 && reg(s.registers, c).len() == 0 {
        lemma_bin_sub_leaf_eee(s, src, dst, t, c);
    }
    if reg(s.registers, t).len() == 0 && reg(s.registers, src).len() == 0 && reg(s.registers, c).len() > 0 && reg(s.registers, c)[0] == Symbol::One {
        lemma_bin_sub_leaf_eeo(s, src, dst, t, c);
    }
    if reg(s.registers, t).len() == 0 && reg(s.registers, src).len() > 0 && reg(s.registers, src)[0] == Symbol::One && reg(s.registers, c).len() == 0 {
        lemma_bin_sub_leaf_eoe(s, src, dst, t, c);
    }
    if reg(s.registers, t).len() == 0 && reg(s.registers, src).len() > 0 && reg(s.registers, src)[0] == Symbol::One && reg(s.registers, c).len() > 0 && reg(s.registers, c)[0] == Symbol::One {
        lemma_bin_sub_leaf_eoo(s, src, dst, t, c);
    }
    if reg(s.registers, t).len() == 0 && reg(s.registers, src).len() > 0 && reg(s.registers, src)[0] == Symbol::Hash && reg(s.registers, c).len() == 0 {
        lemma_bin_sub_leaf_ehe(s, src, dst, t, c);
    }
    if reg(s.registers, t).len() == 0 && reg(s.registers, src).len() > 0 && reg(s.registers, src)[0] == Symbol::Hash && reg(s.registers, c).len() > 0 && reg(s.registers, c)[0] == Symbol::One {
        lemma_bin_sub_leaf_eho(s, src, dst, t, c);
    }
    if reg(s.registers, t).len() > 0 && reg(s.registers, t)[0] == Symbol::One && reg(s.registers, src).len() == 0 && reg(s.registers, c).len() == 0 {
        lemma_bin_sub_leaf_oee(s, src, dst, t, c);
    }
    if reg(s.registers, t).len() > 0 && reg(s.registers, t)[0] == Symbol::One && reg(s.registers, src).len() == 0 && reg(s.registers, c).len() > 0 && reg(s.registers, c)[0] == Symbol::One {
        lemma_bin_sub_leaf_oeo(s, src, dst, t, c);
    }
    if reg(s.registers, t).len() > 0 && reg(s.registers, t)[0] == Symbol::One && reg(s.registers, src).len() > 0 && reg(s.registers, src)[0] == Symbol::One && reg(s.registers, c).len() == 0 {
        lemma_bin_sub_leaf_ooe(s, src, dst, t, c);
    }
    if reg(s.registers, t).len() > 0 && reg(s.registers, t)[0] == Symbol::One && reg(s.registers, src).len() > 0 && reg(s.registers, src)[0] == Symbol::One && reg(s.registers, c).len() > 0 && reg(s.registers, c)[0] == Symbol::One {
        lemma_bin_sub_leaf_ooo(s, src, dst, t, c);
    }
    if reg(s.registers, t).len() > 0 && reg(s.registers, t)[0] == Symbol::One && reg(s.registers, src).len() > 0 && reg(s.registers, src)[0] == Symbol::Hash && reg(s.registers, c).len() == 0 {
        lemma_bin_sub_leaf_ohe(s, src, dst, t, c);
    }
    if reg(s.registers, t).len() > 0 && reg(s.registers, t)[0] == Symbol::One && reg(s.registers, src).len() > 0 && reg(s.registers, src)[0] == Symbol::Hash && reg(s.registers, c).len() > 0 && reg(s.registers, c)[0] == Symbol::One {
        lemma_bin_sub_leaf_oho(s, src, dst, t, c);
    }
    if reg(s.registers, t).len() > 0 && reg(s.registers, t)[0] == Symbol::Hash && reg(s.registers, src).len() == 0 && reg(s.registers, c).len() == 0 {
        lemma_bin_sub_leaf_hee(s, src, dst, t, c);
    }
    if reg(s.registers, t).len() > 0 && reg(s.registers, t)[0] == Symbol::Hash && reg(s.registers, src).len() == 0 && reg(s.registers, c).len() > 0 && reg(s.registers, c)[0] == Symbol::One {
        lemma_bin_sub_leaf_heo(s, src, dst, t, c);
    }
    if reg(s.registers, t).len() > 0 && reg(s.registers, t)[0] == Symbol::Hash && reg(s.registers, src).len() > 0 && reg(s.registers, src)[0] == Symbol::One && reg(s.registers, c).len() == 0 {
        lemma_bin_sub_leaf_hoe(s, src, dst, t, c);
    }
    if reg(s.registers, t).len() > 0 && reg(s.registers, t)[0] == Symbol::Hash && reg(s.registers, src).len() > 0 && reg(s.registers, src)[0] == Symbol::One && reg(s.registers, c).len() > 0 && reg(s.registers, c)[0] == Symbol::One {
        lemma_bin_sub_leaf_hoo(s, src, dst, t, c);
    }
    if reg(s.registers, t).len() > 0 && reg(s.registers, t)[0] == Symbol::Hash && reg(s.registers, src).len() > 0 && reg(s.registers, src)[0] == Symbol::Hash && reg(s.registers, c).len() == 0 {
        lemma_bin_sub_leaf_hhe(s, src, dst, t, c);
    }
    if reg(s.registers, t).len() > 0 && reg(s.registers, t)[0] == Symbol::Hash && reg(s.registers, src).len() > 0 && reg(s.registers, src)[0] == Symbol::Hash && reg(s.registers, c).len() > 0 && reg(s.registers, c)[0] == Symbol::One {
        lemma_bin_sub_leaf_hho(s, src, dst, t, c);
    }
}

/// What the subtracting loop has left to do: the value written to `dst`,
/// plus the value of `t` less those of `src` and the borrow, at the place of
/// the next bit.
pub open spec fn bin_sub_total(s: MachineState, dst: usize, src: usize, t: usize, c: usize) -> int {
    value(reg(s.registers, dst)) + two_pow(reg(s.registers, dst).len()) * (value(
        reg(s.registers, t),
    ) - value(reg(s.registers, src)) - reg(s.registers, c).len())
}

/// One round of the subtracting loop keeps what is left to do.
proof fn lemma_bin_sub_total_kept(s: MachineState, src: usize, dst: usize, t: usize, c: usize)
    requires
        bin_sub_ready(s, src, dst, t, c),
    ensures
        bin_sub_total(bin_sub_next(s, src, dst, t, c), dst, src, t, c) == bin_sub_total(s, dst, src, t, c),
{
    let a = reg(s.registers, t);
    let b = reg(s.registers, src);
    let d = reg(s.registers, dst);
    let cw = reg(s.registers, c);
    let n = bin_sub_next(s, src, dst, t, c);
    let df = bin_sub_diff(s, src, t, c);
    let ob: nat = if df == 1 || df == -1 { 1 } else { 0 };
    let a2 = rest_word(a);
    let b2 = rest_word(b);
    assert(reg(n.registers, t) =~= a2);
    assert(reg(n.registers, src) =~= b2);
    assert(reg(n.registers, dst) == d.push(bit_symbol(ob)));
    let bout: int = if df < 0 { 1 } else { 0 };
    assert(reg(n.registers, c).len() == bout);
    lemma_value_push(d, bit_symbol(ob));
    lemma_value_first(a);
    lemma_value_first(b);
    assert(bit(bit_symbol(ob)) == ob);
    let tp = two_pow(d.len());
    assert(two_pow(d.len() + 1) == 2 * tp);
    assert(d.push(bit_symbol(ob)).len() == d.len() + 1);
    assert(-2 <= df <= 1);
    assert(df == ob - 2 * bout);
    assert(bin_sub_total(n, dst, src, t, c) == value(d) + ob * tp + (2 * tp) * (value(a2) - value(b2)
        - bout));
    assert(bin_sub_total(s, dst, src, t, c) == value(d) + tp * (first_bit(a) + 2 * value(a2) - (
    first_bit(b) + 2 * value(b2)) - cw.len()));
    assert(df == first_bit(a) - first_bit(b) - cw.len());
    assert(value(d) + ob * tp + (2 * tp) * (value(a2) - value(b2) - bout) == value(d) + tp * (df + 2
        * value(a2) - 2 * value(b2))) by (nonlinear_arith)
        requires
            df == ob - 2 * bout,
    ;
}

/// The end of the subtracting loop: with `t` and `src` empty, the borrow is
/// cleared and the run halts.
#[verifier::spinoff_prover]
proof fn lemma_bin_sub_finish(s: MachineState, src: usize, dst: usize, t: usize, c: usize)
    requires
        bin_sub_ready(s, src, dst, t, c),
        s.pc == 8,
        s.step_count + 9 <= step_limit(s),
        reg(s.registers, t).len() == 0,
        reg(s.registers, src).len() == 0,
    ensures
        run_spec(s).1 == RunResult::Halted,
        run_spec(s).0.pc == 101,
        value(reg(run_spec(s).0.registers, dst)) - two_pow(reg(run_spec(s).0.registers, dst).len())
            * reg(s.registers, c).len() == bin_sub_total(s, dst, src, t, c),
        reg(run_spec(s).0.registers, dst).len() == reg(s.registers, dst).len(),
        run_spec(s).0.registers.remove(dst) == s.registers.remove(t).remove(src).remove(c).remove(dst),
{
    let d = reg(s.registers, dst);
    lemma_bin_sub_round(s, src, dst, t, c);
    assert(!s.registers.contains_key(t) && !s.registers.contains_key(src));
    assert(value(reg(s.registers, t)) == 0 && value(reg(s.registers, src)) == 0);
    let e = bin_sub_end(s, src, dst, t, c);
    assert(reg(e.registers, dst) == d);
    assert(e.registers.remove(dst) =~= s.registers.remove(t).remove(src).remove(c).remove(dst));
    let tp = two_pow(d.len());
    let k = reg(s.registers, c).len();
    assert(tp * (0 - 0 - k) == -(tp * k)) by (nonlinear_arith);
}

/// A round of the subtracting loop keeps the loop's state ready and takes
/// at least one symbol from `t` or `src`.
proof fn lemma_bin_sub_next_ready(s: MachineState, src: usize, dst: usize, t: usize, c: usize)
    requires
        bin_sub_ready(s, src, dst, t, c),
        !(reg(s.registers, t).len() == 0 && reg(s.registers, src).len() == 0),
    ensures
        bin_sub_ready(bin_sub_next(s, src, dst, t, c), src, dst, t, c),
        reg(bin_sub_next(s, src, dst, t, c).registers, t).len() + reg(
            bin_sub_next(s, src, dst, t, c).registers,
            src,
        ).len() < reg(s.registers, t).len() + reg(s.registers, src).len(),
        bin_sub_next(s, src, dst, t, c).step_count <= s.step_count + 9,
        reg(bin_sub_next(s, src, dst, t, c).registers, dst).len() == reg(s.registers, dst).len() + 1,
        bin_sub_next(s, src, dst, t, c).registers.remove(t).remove(src).remove(c).remove(dst)
            == s.registers.remove(t).remove(src).remove(c).remove(dst),
{
    let n = bin_sub_next(s, src, dst, t, c);
    let df = bin_sub_diff(s, src, t, c);
    assert(reg(n.registers, t) =~= rest_word(reg(s.registers, t)));
    assert(reg(n.registers, src) =~= rest_word(reg(s.registers, src)));
    assert(reg(n.registers, c) =~= (if df < 0 {
        seq![Symbol::One]
    } else {
        Seq::<Symbol>::empty()
    }));
    assert(n.registers.remove(t).remove(src).remove(c).remove(dst) =~= s.registers.remove(t).remove(
        src,
    ).remove(c).remove(dst));
}

/// The subtracting loop, run from its start, halts with `dst` holding what
/// it has left to do, plus the final borrow at the place after `dst`'s last
/// bit; `t`, `src` and `c` end empty and every other register as it was.
#[verifier::spinoff_prover]
proof fn lemma_bin_sub_loop(s: MachineState, src: usize, dst: usize, t: usize, c: usize)
    requires
        bin_sub_ready(s, src, dst, t, c),
        s.pc == 8,
        s.step_count + 9 * (reg(s.registers, t).len() + reg(s.registers, src).len()) + 9 <= step_limit(s),
    ensures
        run_spec(s).1 == RunResult::Halted,
        run_spec(s).0.pc == 101,
        value(reg(run_spec(s).0.registers, dst)) == bin_sub_total(s, dst, src, t, c) || value(
            reg(run_spec(s).0.registers, dst),
        ) - two_pow(reg(run_spec(s).0.registers, dst).len()) == bin_sub_total(s, dst, src, t, c),
        run_spec(s).0.registers.remove(dst) == s.registers.remove(t).remove(src).remove(c).remove(dst),
    decreases reg(s.registers, t).len() + reg(s.registers, src).len(),
{
    if reg(s.registers, t).len() == 0 && reg(s.registers, src).len() == 0 {
        lemma_bin_sub_finish(s, src, dst, t, c);
        let k = reg(s.registers, c).len();
        assert(k == 0 || k == 1);
    } else {
        lemma_bin_sub_round(s, src, dst, t, c);
        let n = bin_sub_next(s, src, dst, t, c);
        lemma_bin_sub_next_ready(s, src, dst, t, c);
        lemma_bin_sub_total_kept(s, src, dst, t, c);
        assert(n.pc == 8);
        assert(step_limit(n) == step_limit(s));
        lemma_bin_sub_loop(n, src, dst, t, c);
    }
}

/// Running the program of `bin_sub src dst t u b`, for four different
/// registers `src`, `dst`, `t` and `b` with `t` and `b` empty and the value
/// of `dst` at least that of `src`: it halts with `dst` holding a word whose
/// value is the value of `dst` less that of `src`, `src` emptied, and every
/// other register as it was (`t` and `b` empty again).
pub proof fn lemma_bin_sub_subtracts(s: MachineState, src: usize, dst: usize, t: usize, c: usize)
    requires
        src != dst && src != t && src != c && dst != t && dst != c && t != c,
        s.program == bin_sub_program(src, dst, t, c),
        s.pc == 0,
        nonempty_only(s.registers),
        reg(s.registers, t).len() == 0,
        reg(s.registers, c).len() == 0,
        value(reg(s.registers, dst)) >= value(reg(s.registers, src)),
        s.step_count + 4 * reg(s.registers, dst).len() + 2 + 9 * (reg(s.registers, dst).len()
            + reg(s.registers, src).len()) + 9 <= step_limit(s),
    ensures
        run_spec(s).1 == RunResult::Halted,
        value(reg(run_spec(s).0.registers, dst)) + value(reg(s.registers, src)) == value(
            reg(s.registers, dst),
        ),
        run_spec(s).0.registers.remove(dst) == s.registers.remove(src).remove(dst),
{
    let x = reg(s.registers, src);
    let y = reg(s.registers, dst);
    lemma_bin_sub_program_at(src, dst, t, c, s.program);
    assert(s.program.subrange(0, 8) =~= move_program(dst, t));
    lemma_move_at(s, dst, t, 0);
    let s1 = after_move(s, dst, t, 0);
    assert(reg(s.registers, t) + y =~= y);
    assert(reg(s1.registers, t) == y);
    assert(reg(s1.registers, dst).len() == 0);
    assert(reg(s1.registers, src) == x);
    assert(reg(s1.registers, c).len() == 0);
    assert(reg(s1.registers, c) =~= Seq::<Symbol>::empty());
    assert(bin_sub_ready(s1, src, dst, t, c));
    lemma_bin_sub_loop(s1, src, dst, t, c);
    assert(value(reg(s1.registers, dst)) == 0);
    assert(two_pow(reg(s1.registers, dst).len()) == 1);
    let inner: int = value(reg(s1.registers, t)) - value(reg(s1.registers, src)) - reg(s1.registers, c).len();
    assert(inner == value(y) - value(x));
    assert(1 * inner == inner);
    assert(bin_sub_total(s1, dst, src, t, c) == value(y) - value(x));
    let f = run_spec(s1).0;
    let w = reg(f.registers, dst);
    lemma_value_bound(w);
    assert(!s.registers.contains_key(t) && !s.registers.contains_key(c));
    assert(s1.registers.remove(t).remove(src).remove(c).remove(dst) =~= s.registers.remove(src).remove(dst));
}

} // verus!
