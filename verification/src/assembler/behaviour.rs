//! What the programs of some built-in macros do when the machine runs them.
//!
//! Each spec function below is the 1# program that a built-in macro call
//! assembles to; each lemma states the end state of a run of that program
//! from its first instruction. For `clear`, `pop`, `move`, `copy`,
//! `shift_left`, `increment` and `decrement`, `template_programs.rs` proves
//! that the macro's template assembles to the program here; for the others
//! (`swap`, `shift_right`, `is_nonzero`, `write`, whose templates call other
//! macros or jump to labels of the calling program) the tests compile the
//! macro and compare.
use vstd::prelude::*;

use crate::instruction::Instruction;
use crate::types::{bit, value, Symbol};
use crate::machine::{nonempty_only, reg, run_spec, step_limit, step_spec, store, MachineState, RunResult};

verus! {

/// The program of `clear r`.
pub open spec fn clear_program(r: usize) -> Seq<Instruction> {
    seq![
        Instruction::Case(r),
        Instruction::Forward(3),
        Instruction::Backward(2),
        Instruction::Backward(3),
    ]
}

/// Running the program of `clear r` empties register `r` and leaves every
/// other register as it was; it halts after two steps per symbol of `r`, plus
/// two, when the step limit allows that many.
pub proof fn lemma_clear_empties(s: MachineState, r: usize)
    requires
        s.program == clear_program(r),
        s.pc == 0,
        nonempty_only(s.registers),
        s.step_count + 2 * reg(s.registers, r).len() + 2 <= step_limit(s),
    ensures
        run_spec(s) == (MachineState {
            registers: s.registers.remove(r),
            pc: 4,
            step_count: s.step_count + 2 * reg(s.registers, r).len() + 2,
            ..s
        }, RunResult::Halted),
    decreases reg(s.registers, r).len(),
{
    let w = reg(s.registers, r);
    let t1 = step_spec(s).0;
    if w.len() == 0 {
        assert(!s.registers.contains_key(r));
        assert(s.registers.remove(r) =~= s.registers);
        assert(run_spec(s) == run_spec(t1));
        assert(run_spec(t1) == (step_spec(t1).0, RunResult::Halted));
    } else {
        let t2 = step_spec(t1).0;
        assert(t2.pc == 0);
        assert(t2.registers == store(s.registers, r, w.drop_first()));
        assert(reg(t2.registers, r) =~= w.drop_first());
        lemma_clear_empties(t2, r);
        assert(t2.registers.remove(r) =~= s.registers.remove(r));
        assert(run_spec(t1) == run_spec(t2));
        assert(run_spec(s) == run_spec(t1));
    }
}

/// The program of `pop r`, and of `shift_right r`, which is `pop r`.
pub open spec fn pop_program(r: usize) -> Seq<Instruction> {
    seq![
        Instruction::Case(r),
        Instruction::Forward(3),
        Instruction::Forward(2),
        Instruction::Forward(1),
    ]
}

/// Running the program of `pop r` removes the first symbol of register `r`
/// (nothing when it is empty), which halves its value, and leaves every other
/// register as it was; it halts after two steps when the step limit allows.
pub proof fn lemma_pop_drops_first(s: MachineState, r: usize)
    requires
        s.program == pop_program(r),
        s.pc == 0,
        s.step_count + 2 <= step_limit(s),
    ensures
        ({
            let w = reg(s.registers, r);
            let after = if w.len() == 0 {
                s.registers
            } else {
                store(s.registers, r, w.drop_first())
            };
            &&& run_spec(s) == (MachineState {
                registers: after,
                pc: 4,
                step_count: s.step_count + 2,
                ..s
            }, RunResult::Halted)
            &&& value(reg(after, r)) == value(w) / 2
        }),
{
    let t1 = step_spec(s).0;
    assert(run_spec(s) == run_spec(t1));
    assert(run_spec(t1) == (step_spec(t1).0, RunResult::Halted));
    let w = reg(s.registers, r);
    if w.len() > 0 {
        let rest = w.drop_first();
        assert(reg(store(s.registers, r, rest), r) =~= rest);
        assert(value(w) == bit(w[0]) + 2 * value(rest));
        assert(bit(w[0]) <= 1);
        assert((bit(w[0]) + 2 * value(rest)) / 2 == value(rest)) by (nonlinear_arith)
            requires
                bit(w[0]) <= 1,
        ;
    }
}

/// The program of `move a b`.
pub open spec fn move_program(a: usize, b: usize) -> Seq<Instruction> {
    seq![
        Instruction::Case(a),
        Instruction::Forward(7),
        Instruction::Forward(2),
        Instruction::Forward(3),
        Instruction::AddOne(b),
        Instruction::Backward(5),
        Instruction::AddHash(b),
        Instruction::Backward(7),
    ]
}

/// The state after the program of `move a b`, placed at index `o` of the
/// program, has run from `o`: the word of `a` appended to that of `b`, `a`
/// emptied, the program counter just past the placed program.
pub open spec fn after_move(s: MachineState, a: usize, b: usize, o: nat) -> MachineState {
    MachineState {
        registers: store(s.registers.remove(a), b, reg(s.registers, b) + reg(s.registers, a)),
        pc: o + 8,
        step_count: s.step_count + 4 * reg(s.registers, a).len() + 2,
        ..s
    }
}

/// Running the program of `move a b` placed at index `o` of a longer
/// program, for two different registers: when it is the end of the program,
/// the run halts in `after_move`; otherwise the run goes on from there.
pub proof fn lemma_move_at(s: MachineState, a: usize, b: usize, o: nat)
    requires
        a != b,
        o + 8 <= s.program.len() < usize::MAX,
        s.program.subrange(o as int, o + 8int) == move_program(a, b),
        s.pc == o,
        nonempty_only(s.registers),
        s.step_count + 4 * reg(s.registers, a).len() + 2 <= step_limit(s),
    ensures
        if o + 8 == s.program.len() {
            run_spec(s) == (after_move(s, a, b, o), RunResult::Halted)
        } else {
            run_spec(s) == run_spec(after_move(s, a, b, o))
        },
    decreases reg(s.registers, a).len(),
{
    let w = reg(s.registers, a);
    let v = reg(s.registers, b);
    let p = move_program(a, b);
    assert forall|k: int| 0 <= k < 8 implies s.program[o + k] == p[k] by {
        assert(s.program.subrange(o as int, o + 8int)[k] == s.program[o + k]);
    }
    assert(s.program[o as int] == p[0]);
    assert(s.program[o + 1int] == p[1]);
    let t1 = step_spec(s).0;
    assert(run_spec(s) == run_spec(t1));
    if w.len() == 0 {
        assert(!s.registers.contains_key(a));
        assert(v + w =~= v);
        assert(store(s.registers.remove(a), b, v + w) =~= s.registers);
        if o + 8 == s.program.len() {
            assert(run_spec(t1) == (step_spec(t1).0, RunResult::Halted));
        } else {
            assert(run_spec(t1) == run_spec(step_spec(t1).0));
        }
    } else {
        let sym = w[0];
        assert(s.program[o + 2int] == p[2]);
        assert(s.program[o + 3int] == p[3]);
        assert(s.program[o + 4int] == p[4]);
        assert(s.program[o + 5int] == p[5]);
        assert(s.program[o + 6int] == p[6]);
        assert(s.program[o + 7int] == p[7]);
        let t2 = step_spec(t1).0;
        let t3 = step_spec(t2).0;
        let t4 = step_spec(t3).0;
        let m1 = store(s.registers, a, w.drop_first());
        assert(t1.registers == m1);
        assert(t2.registers == m1);
        assert(reg(m1, b) == v);
        assert(t3.registers == m1.insert(b, v.push(sym)));
        assert(t4.pc == o);
        assert(reg(t4.registers, a) =~= w.drop_first());
        assert(reg(t4.registers, b) == v.push(sym));
        lemma_move_at(t4, a, b, o);
        assert(v.push(sym) + w.drop_first() =~= v + w);
        assert(after_move(t4, a, b, o) == after_move(s, a, b, o)) by {
            assert(store(t4.registers.remove(a), b, v.push(sym) + w.drop_first()) =~= store(
                s.registers.remove(a),
                b,
                v + w,
            ));
        }
        assert(run_spec(t3) == run_spec(t4));
        assert(run_spec(t2) == run_spec(t3));
        assert(run_spec(t1) == run_spec(t2));
    }
}

/// Running the program of `move a b`, for two different registers, appends
/// the word of `a` to that of `b` and empties `a`; every other register stays
/// as it was. It halts after four steps per symbol of `a`, plus two, when the
/// step limit allows that many.
pub proof fn lemma_move_appends(s: MachineState, a: usize, b: usize)
    requires
        a != b,
        s.program == move_program(a, b),
        s.pc == 0,
        nonempty_only(s.registers),
        s.step_count + 4 * reg(s.registers, a).len() + 2 <= step_limit(s),
    ensures
        run_spec(s) == (MachineState {
            registers: store(
                s.registers.remove(a),
                b,
                reg(s.registers, b) + reg(s.registers, a),
            ),
            pc: 8,
            step_count: s.step_count + 4 * reg(s.registers, a).len() + 2,
            ..s
        }, RunResult::Halted),
{
    assert(s.program.subrange(0, 8) =~= move_program(a, b));
    lemma_move_at(s, a, b, 0);
}

/// The program of `copy a b t`.
pub open spec fn copy_program(a: usize, b: usize, t: usize) -> Seq<Instruction> {
    seq![
        Instruction::Case(a),
        Instruction::Forward(7),
        Instruction::Forward(2),
        Instruction::Forward(3),
        Instruction::AddOne(t),
        Instruction::Backward(5),
        Instruction::AddHash(t),
        Instruction::Backward(7),
        Instruction::Case(t),
        Instruction::Forward(9),
        Instruction::Forward(2),
        Instruction::Forward(4),
        Instruction::AddOne(a),
        Instruction::AddOne(b),
        Instruction::Backward(6),
        Instruction::AddHash(a),
        Instruction::AddHash(b),
        Instruction::Backward(9),
    ]
}

/// The first loop of `copy a b t`: the word of `a` is moved to the end of
/// `t`, and the run goes on at the second loop.
proof fn lemma_copy_gather(s: MachineState, a: usize, b: usize, t: usize)
    requires
        a != b && a != t && b != t,
        s.program == copy_program(a, b, t),
        s.pc == 0,
        nonempty_only(s.registers),
        s.step_count + 4 * reg(s.registers, a).len() + 2 <= step_limit(s),
    ensures
        run_spec(s) == run_spec(
            MachineState {
                registers: store(
                    s.registers.remove(a),
                    t,
                    reg(s.registers, t) + reg(s.registers, a),
                ),
                pc: 8,
                step_count: s.step_count + 4 * reg(s.registers, a).len() + 2,
                ..s
            },
        ),
    decreases reg(s.registers, a).len(),
{
    let w = reg(s.registers, a);
    let v = reg(s.registers, t);
    let t1 = step_spec(s).0;
    assert(run_spec(s) == run_spec(t1));
    if w.len() == 0 {
        assert(!s.registers.contains_key(a));
        assert(v + w =~= v);
        assert(store(s.registers.remove(a), t, v + w) =~= s.registers);
        assert(run_spec(t1) == run_spec(step_spec(t1).0));
    } else {
        let sym = w[0];
        let t2 = step_spec(t1).0;
        let t3 = step_spec(t2).0;
        let t4 = step_spec(t3).0;
        let m1 = store(s.registers, a, w.drop_first());
        assert(t1.registers == m1);
        assert(t2.registers == m1);
        assert(reg(m1, t) == v);
        assert(t3.registers == m1.insert(t, v.push(sym)));
        assert(t4.pc == 0);
        assert(reg(t4.registers, a) =~= w.drop_first());
        assert(reg(t4.registers, t) == v.push(sym));
        lemma_copy_gather(t4, a, b, t);
        assert(v.push(sym) + w.drop_first() =~= v + w);
        assert(store(t4.registers.remove(a), t, v.push(sym) + w.drop_first()) =~= store(
            s.registers.remove(a),
            t,
            v + w,
        ));
        assert(run_spec(t3) == run_spec(t4));
        assert(run_spec(t2) == run_spec(t3));
        assert(run_spec(t1) == run_spec(t2));
    }
}

/// The second loop of `copy a b t`: the word of `t` is appended to both `a`
/// and `b`, and `t` is emptied.
proof fn lemma_copy_restore(s: MachineState, a: usize, b: usize, t: usize)
    requires
        a != b && a != t && b != t,
        s.program == copy_program(a, b, t),
        s.pc == 8,
        nonempty_only(s.registers),
        s.step_count + 5 * reg(s.registers, t).len() + 2 <= step_limit(s),
    ensures
        run_spec(s) == (MachineState {
            registers: store(
                store(s.registers.remove(t), a, reg(s.registers, a) + reg(s.registers, t)),
                b,
                reg(s.registers, b) + reg(s.registers, t),
            ),
            pc: 18,
            step_count: s.step_count + 5 * reg(s.registers, t).len() + 2,
            ..s
        }, RunResult::Halted),
    decreases reg(s.registers, t).len(),
{
    let u = reg(s.registers, t);
    let wa = reg(s.registers, a);
    let wb = reg(s.registers, b);
    let t1 = step_spec(s).0;
    assert(run_spec(s) == run_spec(t1));
    if u.len() == 0 {
        assert(!s.registers.contains_key(t));
        assert(wa + u =~= wa);
        assert(wb + u =~= wb);
        assert(store(store(s.registers.remove(t), a, wa + u), b, wb + u) =~= s.registers);
        assert(run_spec(t1) == (step_spec(t1).0, RunResult::Halted));
    } else {
        let sym = u[0];
        let t2 = step_spec(t1).0;
        let t3 = step_spec(t2).0;
        let t4 = step_spec(t3).0;
        let t5 = step_spec(t4).0;
        let m1 = store(s.registers, t, u.drop_first());
        assert(t1.registers == m1);
        assert(t2.registers == m1);
        assert(reg(m1, a) == wa);
        assert(reg(m1, b) == wb);
        let m2 = m1.insert(a, wa.push(sym));
        assert(t3.registers == m2);
        assert(reg(m2, b) == wb);
        assert(t4.registers == m2.insert(b, wb.push(sym)));
        assert(t5.pc == 8);
        assert(reg(t5.registers, t) =~= u.drop_first());
        assert(reg(t5.registers, a) == wa.push(sym));
        assert(reg(t5.registers, b) == wb.push(sym));
        lemma_copy_restore(t5, a, b, t);
        assert(wa.push(sym) + u.drop_first() =~= wa + u);
        assert(wb.push(sym) + u.drop_first() =~= wb + u);
        assert(store(
            store(t5.registers.remove(t), a, wa.push(sym) + u.drop_first()),
            b,
            wb.push(sym) + u.drop_first(),
        ) =~= store(store(s.registers.remove(t), a, wa + u), b, wb + u));
        assert(run_spec(t4) == run_spec(t5));
        assert(run_spec(t3) == run_spec(t4));
        assert(run_spec(t2) == run_spec(t3));
        assert(run_spec(t1) == run_spec(t2));
    }
}

/// Running the program of `copy a b t`, for three different registers with
/// `t` empty, appends the word of `a` to that of `b` and keeps `a` and `t`
/// as they were, as well as every other register. It halts after nine steps
/// per symbol of `a`, plus four, when the step limit allows that many.
pub proof fn lemma_copy_appends(s: MachineState, a: usize, b: usize, t: usize)
    requires
        a != b && a != t && b != t,
        s.program == copy_program(a, b, t),
        s.pc == 0,
        nonempty_only(s.registers),
        reg(s.registers, t).len() == 0,
        s.step_count + 9 * reg(s.registers, a).len() + 4 <= step_limit(s),
    ensures
        run_spec(s) == (MachineState {
            registers: store(s.registers, b, reg(s.registers, b) + reg(s.registers, a)),
            pc: 18,
            step_count: s.step_count + 9 * reg(s.registers, a).len() + 4,
            ..s
        }, RunResult::Halted),
{
    let w = reg(s.registers, a);
    let v = reg(s.registers, b);
    lemma_copy_gather(s, a, b, t);
    let m1 = store(s.registers.remove(a), t, reg(s.registers, t) + w);
    assert(reg(s.registers, t) + w =~= w);
    let s1 = MachineState { registers: m1, pc: 8, step_count: s.step_count + 4 * w.len() + 2, ..s };
    assert(reg(m1, t) == w);
    assert(reg(m1, a).len() == 0);
    assert(reg(m1, a) + w =~= w);
    assert(reg(m1, b) == v);
    lemma_copy_restore(s1, a, b, t);
    assert(!s.registers.contains_key(t));
    if w.len() > 0 {
        assert(s.registers.contains_key(a));
    } else {
        assert(!s.registers.contains_key(a));
    }
    assert(store(store(m1.remove(t), a, reg(m1, a) + w), b, v + w) =~= store(s.registers, b, v + w));
}

/// The program of `swap a b t`: `move a t`, `move b a`, `move t b`.
pub open spec fn swap_program(a: usize, b: usize, t: usize) -> Seq<Instruction> {
    move_program(a, t) + move_program(b, a) + move_program(t, b)
}

/// Running the program of `swap a b t`, for three different registers with
/// `t` empty, exchanges the words of `a` and `b` and leaves `t` empty and
/// every other register as it was. It halts after eight steps per symbol of
/// `a`, four per symbol of `b`, plus six, when the step limit allows.
pub proof fn lemma_swap_exchanges(s: MachineState, a: usize, b: usize, t: usize)
    requires
        a != b && a != t && b != t,
        s.program == swap_program(a, b, t),
        s.pc == 0,
        nonempty_only(s.registers),
        reg(s.registers, t).len() == 0,
        s.step_count + 8 * reg(s.registers, a).len() + 4 * reg(s.registers, b).len() + 6
            <= step_limit(s),
    ensures
        run_spec(s) == (MachineState {
            registers: store(store(s.registers, a, reg(s.registers, b)), b, reg(s.registers, a)),
            pc: 24,
            step_count: s.step_count + 8 * reg(s.registers, a).len() + 4 * reg(
                s.registers,
                b,
            ).len() + 6,
            ..s
        }, RunResult::Halted),
{
    let wa = reg(s.registers, a);
    let wb = reg(s.registers, b);
    let p = swap_program(a, b, t);
    assert(p.len() == 24);
    assert(p.subrange(0, 8) =~= move_program(a, t));
    assert(p.subrange(8, 16) =~= move_program(b, a));
    assert(p.subrange(16, 24) =~= move_program(t, b));
    lemma_move_at(s, a, t, 0);
    let s1 = after_move(s, a, t, 0);
    assert(reg(s.registers, t) + wa =~= wa);
    assert(reg(s1.registers, b) == wb);
    assert(reg(s1.registers, a).len() == 0);
    assert(reg(s1.registers, t) == wa);
    lemma_move_at(s1, b, a, 8);
    let s2 = after_move(s1, b, a, 8);
    assert(reg(s1.registers, a) + wb =~= wb);
    assert(reg(s2.registers, t) == wa);
    assert(reg(s2.registers, b).len() == 0);
    assert(reg(s2.registers, a) == wb);
    lemma_move_at(s2, t, b, 16);
    let s3 = after_move(s2, t, b, 16);
    assert(reg(s2.registers, b) + wa =~= wa);
    assert(!s.registers.contains_key(t));
    assert(s3.registers =~= store(store(s.registers, a, wb), b, wa));
}

/// The program of `shift_left r t`: `r` is moved to `t`, a `#` is put in
/// `r`, and `t` is moved back to `r`.
pub open spec fn shift_left_program(r: usize, t: usize) -> Seq<Instruction> {
    move_program(r, t) + seq![Instruction::AddHash(r)] + move_program(t, r)
}

/// Running the program of `shift_left r t`, for two different registers with
/// `t` empty, puts a `#` before the word of `r`, which doubles its value, and
/// leaves `t` empty and every other register as it was. It halts after eight
/// steps per symbol of `r`, plus five, when the step limit allows.
pub proof fn lemma_shift_left_prepends(s: MachineState, r: usize, t: usize)
    requires
        r != t,
        s.program == shift_left_program(r, t),
        s.pc == 0,
        nonempty_only(s.registers),
        reg(s.registers, t).len() == 0,
        s.step_count + 8 * reg(s.registers, r).len() + 5 <= step_limit(s),
    ensures
        run_spec(s) == (MachineState {
            registers: s.registers.insert(r, seq![Symbol::Hash] + reg(s.registers, r)),
            pc: 17,
            step_count: s.step_count + 8 * reg(s.registers, r).len() + 5,
            ..s
        }, RunResult::Halted),
        value(seq![Symbol::Hash] + reg(s.registers, r)) == 2 * value(reg(s.registers, r)),
{
    let w = reg(s.registers, r);
    let p = shift_left_program(r, t);
    assert(p.len() == 17);
    assert(p.subrange(0, 8) =~= move_program(r, t));
    assert(p.subrange(9, 17) =~= move_program(t, r));
    assert(p[8] == Instruction::AddHash(r));
    lemma_move_at(s, r, t, 0);
    let s1 = after_move(s, r, t, 0);
    assert(reg(s.registers, t) + w =~= w);
    assert(reg(s1.registers, r).len() == 0);
    assert(reg(s1.registers, t) == w);
    let s2 = step_spec(s1).0;
    assert(run_spec(s1) == run_spec(s2));
    assert(s2.pc == 9);
    assert(s2.registers == s1.registers.insert(r, seq![Symbol::Hash])) by {
        assert(reg(s1.registers, r).push(Symbol::Hash) =~= seq![Symbol::Hash]);
    }
    assert(reg(s2.registers, t) == w);
    assert(reg(s2.registers, r) == seq![Symbol::Hash]);
    lemma_move_at(s2, t, r, 9);
    let s3 = after_move(s2, t, r, 9);
    assert(!s.registers.contains_key(t));
    assert(s3.registers =~= s.registers.insert(r, seq![Symbol::Hash] + w));
    let hw = seq![Symbol::Hash] + w;
    assert(hw.drop_first() =~= w);
    assert(value(hw) == bit(hw[0]) + 2 * value(hw.drop_first()));
}

/// The program of `increment r t`.
pub open spec fn increment_program(r: usize, t: usize) -> Seq<Instruction> {
    seq![
        Instruction::Case(r),
        Instruction::Forward(7),
        Instruction::Forward(2),
        Instruction::Forward(3),
        Instruction::AddHash(t),
        Instruction::Backward(5),
        Instruction::AddOne(t),
        Instruction::Forward(2),
        Instruction::AddOne(t),
    ] + move_program(r, t) + move_program(t, r)
}

/// The symbols that adding one writes in place of the leading `1`s of `w`
/// and the symbol after them: a `#` for each leading `1`, then a `1`.
pub open spec fn inc_head(w: Seq<Symbol>) -> Seq<Symbol>
    decreases w.len(),
{
    if w.len() == 0 {
        seq![Symbol::One]
    } else if w[0] == Symbol::One {
        seq![Symbol::Hash] + inc_head(w.drop_first())
    } else {
        seq![Symbol::One]
    }
}

/// What follows the first `#` of `w` (nothing when it has none).
pub open spec fn inc_tail(w: Seq<Symbol>) -> Seq<Symbol>
    decreases w.len(),
{
    if w.len() == 0 {
        w
    } else if w[0] == Symbol::One {
        inc_tail(w.drop_first())
    } else {
        w.drop_first()
    }
}

/// The word one more than `w` in backwards binary.
pub open spec fn incremented(w: Seq<Symbol>) -> Seq<Symbol> {
    inc_head(w) + inc_tail(w)
}

/// The steps of the first loop of `increment`: four per leading `1`, then
/// four more past a `#`, or three at the end of the word.
pub open spec fn inc_steps(w: Seq<Symbol>) -> nat
    decreases w.len(),
{
    if w.len() == 0 {
        3
    } else if w[0] == Symbol::One {
        4 + inc_steps(w.drop_first())
    } else {
        4
    }
}

/// The steps of a whole run of the program of `increment` on the word `w`.
pub open spec fn increment_steps(w: Seq<Symbol>) -> nat {
    inc_steps(w) + 4 * inc_tail(w).len() + 2 + 4 * incremented(w).len() + 2
}

/// `incremented(w)` is one more than `w`.
pub proof fn lemma_incremented_value(w: Seq<Symbol>)
    ensures
        value(incremented(w)) == value(w) + 1,
        incremented(w).len() > 0,
    decreases w.len(),
{
    let x = incremented(w);
    if w.len() == 0 {
        assert(x =~= seq![Symbol::One]);
        assert(x.drop_first() =~= Seq::<Symbol>::empty());
        assert(value(x) == bit(x[0]) + 2 * value(x.drop_first()));
    } else if w[0] == Symbol::One {
        let r = w.drop_first();
        lemma_incremented_value(r);
        assert(x =~= seq![Symbol::Hash] + incremented(r));
        assert(x.drop_first() =~= incremented(r));
        assert(value(x) == bit(x[0]) + 2 * value(x.drop_first()));
        assert(value(w) == bit(w[0]) + 2 * value(r));
    } else {
        assert(x =~= seq![Symbol::One] + w.drop_first());
        assert(x.drop_first() =~= w.drop_first());
        assert(value(x) == bit(x[0]) + 2 * value(x.drop_first()));
        assert(value(w) == bit(w[0]) + 2 * value(w.drop_first()));
    }
}

/// The first loop of `increment r t`: the leading `1`s of `r` and the
/// symbol after them are taken from `r`, and `inc_head` is appended to `t`.
proof fn lemma_increment_head(s: MachineState, r: usize, t: usize)
    requires
        r != t,
        s.program == increment_program(r, t),
        s.pc == 0,
        nonempty_only(s.registers),
        s.step_count + inc_steps(reg(s.registers, r)) <= step_limit(s),
    ensures
        run_spec(s) == run_spec(
            MachineState {
                registers: store(
                    store(s.registers, r, inc_tail(reg(s.registers, r))),
                    t,
                    reg(s.registers, t) + inc_head(reg(s.registers, r)),
                ),
                pc: 9,
                step_count: s.step_count + inc_steps(reg(s.registers, r)),
                ..s
            },
        ),
    decreases reg(s.registers, r).len(),
{
    let w = reg(s.registers, r);
    let u = reg(s.registers, t);
    let p = increment_program(r, t);
    assert(p.len() == 25);
    assert(p[0] == Instruction::Case(r));
    assert(p[1] == Instruction::Forward(7));
    assert(p[2] == Instruction::Forward(2));
    assert(p[3] == Instruction::Forward(3));
    assert(p[4] == Instruction::AddHash(t));
    assert(p[5] == Instruction::Backward(5));
    assert(p[6] == Instruction::AddOne(t));
    assert(p[7] == Instruction::Forward(2));
    assert(p[8] == Instruction::AddOne(t));
    let t1 = step_spec(s).0;
    let t2 = step_spec(t1).0;
    let t3 = step_spec(t2).0;
    assert(run_spec(s) == run_spec(t1));
    assert(run_spec(t1) == run_spec(t2));
    assert(run_spec(t2) == run_spec(t3));
    if w.len() == 0 {
        assert(!s.registers.contains_key(r));
        assert(t3.pc == 9);
        assert(u.push(Symbol::One) =~= u + inc_head(w));
        assert(t3.registers =~= store(store(s.registers, r, inc_tail(w)), t, u + inc_head(w)));
    } else if w[0] == Symbol::One {
        let rest = w.drop_first();
        let t4 = step_spec(t3).0;
        assert(run_spec(t3) == run_spec(t4));
        let m1 = store(s.registers, r, rest);
        assert(t2.registers == m1);
        assert(reg(m1, t) == u);
        assert(t3.registers == m1.insert(t, u.push(Symbol::Hash)));
        assert(t4.pc == 0);
        assert(reg(t4.registers, r) =~= rest);
        assert(reg(t4.registers, t) == u.push(Symbol::Hash));
        lemma_increment_head(t4, r, t);
        assert(u.push(Symbol::Hash) + inc_head(rest) =~= u + inc_head(w));
        assert(store(store(t4.registers, r, inc_tail(rest)), t, u.push(Symbol::Hash) + inc_head(rest))
            =~= store(store(s.registers, r, inc_tail(w)), t, u + inc_head(w)));
    } else {
        let rest = w.drop_first();
        let t4 = step_spec(t3).0;
        assert(run_spec(t3) == run_spec(t4));
        let m1 = store(s.registers, r, rest);
        assert(t1.registers == m1);
        assert(reg(m1, t) == u);
        assert(t3.registers == m1.insert(t, u.push(Symbol::One)));
        assert(t4.pc == 9);
        assert(u.push(Symbol::One) =~= u + inc_head(w));
        assert(t4.registers =~= store(store(s.registers, r, inc_tail(w)), t, u + inc_head(w)));
    }
}

/// Running the program of `increment r t`, for two different registers with
/// `t` empty, adds one to the value of `r` (its word becomes
/// `incremented(w)`) and leaves `t` empty and every other register as it
/// was; it halts after `increment_steps(w)` steps when the step limit allows.
pub proof fn lemma_increment_adds_one(s: MachineState, r: usize, t: usize)
    requires
        r != t,
        s.program == increment_program(r, t),
        s.pc == 0,
        nonempty_only(s.registers),
        reg(s.registers, t).len() == 0,
        s.step_count + increment_steps(reg(s.registers, r)) <= step_limit(s),
    ensures
        run_spec(s) == (MachineState {
            registers: s.registers.insert(r, incremented(reg(s.registers, r))),
            pc: 25,
            step_count: s.step_count + increment_steps(reg(s.registers, r)),
            ..s
        }, RunResult::Halted),
        value(incremented(reg(s.registers, r))) == value(reg(s.registers, r)) + 1,
{
    let w = reg(s.registers, r);
    let p = increment_program(r, t);
    lemma_incremented_value(w);
    assert(p.len() == 25);
    assert(p.subrange(9, 17) =~= move_program(r, t));
    assert(p.subrange(17, 25) =~= move_program(t, r));
    lemma_increment_head(s, r, t);
    let sa = MachineState {
        registers: store(store(s.registers, r, inc_tail(w)), t, reg(s.registers, t) + inc_head(w)),
        pc: 9,
        step_count: s.step_count + inc_steps(w),
        ..s
    };
    assert(reg(s.registers, t) + inc_head(w) =~= inc_head(w));
    assert(reg(sa.registers, r) =~= inc_tail(w));
    assert(reg(sa.registers, t) == inc_head(w));
    lemma_move_at(sa, r, t, 9);
    let sb = after_move(sa, r, t, 9);
    assert(reg(sb.registers, t) == incremented(w));
    assert(reg(sb.registers, r).len() == 0);
    lemma_move_at(sb, t, r, 17);
    let sc = after_move(sb, t, r, 17);
    assert(reg(sb.registers, r) + incremented(w) =~= incremented(w));
    assert(!s.registers.contains_key(t));
    assert(sc.registers =~= s.registers.insert(r, incremented(w)));
}

/// The program of `decrement r t`.
pub open spec fn decrement_program(r: usize, t: usize) -> Seq<Instruction> {
    seq![
        Instruction::Case(r),
        Instruction::Forward(15),
        Instruction::Forward(2),
        Instruction::Forward(3),
        Instruction::AddHash(t),
        Instruction::Forward(3),
        Instruction::AddOne(t),
        Instruction::Backward(7),
    ] + move_program(r, t) + move_program(t, r)
}

/// The symbols that subtracting one writes in place of the leading `#`s of
/// `w` and the `1` after them: a `1` for each leading `#`, then a `#`.
pub open spec fn dec_head(w: Seq<Symbol>) -> Seq<Symbol>
    decreases w.len(),
{
    if w.len() == 0 {
        w
    } else if w[0] == Symbol::Hash {
        seq![Symbol::One] + dec_head(w.drop_first())
    } else {
        seq![Symbol::Hash]
    }
}

/// What follows the first `1` of `w` (nothing when it has none).
pub open spec fn dec_tail(w: Seq<Symbol>) -> Seq<Symbol>
    decreases w.len(),
{
    if w.len() == 0 {
        w
    } else if w[0] == Symbol::Hash {
        dec_tail(w.drop_first())
    } else {
        w.drop_first()
    }
}

/// The word one less than `w` in backwards binary, for `w` of non-zero value.
pub open spec fn decremented(w: Seq<Symbol>) -> Seq<Symbol> {
    dec_head(w) + dec_tail(w)
}

/// The steps of the first loop of `decrement`: four per leading `#`, then
/// four more past the first `1`.
pub open spec fn dec_steps(w: Seq<Symbol>) -> nat
    decreases w.len(),
{
    if w.len() == 0 {
        0
    } else if w[0] == Symbol::Hash {
        4 + dec_steps(w.drop_first())
    } else {
        4
    }
}

/// The steps of a whole run of the program of `decrement` on the word `w`.
pub open spec fn decrement_steps(w: Seq<Symbol>) -> nat {
    dec_steps(w) + 4 * dec_tail(w).len() + 2 + 4 * decremented(w).len() + 2
}

/// For `w` of non-zero value, `decremented(w)` is one less than `w`.
pub proof fn lemma_decremented_value(w: Seq<Symbol>)
    requires
        value(w) > 0,
    ensures
        value(decremented(w)) + 1 == value(w),
    decreases w.len(),
{
    let x = decremented(w);
    let r = w.drop_first();
    assert(w.len() > 0);
    assert(value(w) == bit(w[0]) + 2 * value(r));
    if w[0] == Symbol::Hash {
        lemma_decremented_value(r);
        assert(x =~= seq![Symbol::One] + decremented(r));
        assert(x.drop_first() =~= decremented(r));
        assert(value(x) == bit(x[0]) + 2 * value(x.drop_first()));
    } else {
        assert(x =~= seq![Symbol::Hash] + r);
        assert(x.drop_first() =~= r);
        assert(value(x) == bit(x[0]) + 2 * value(x.drop_first()));
    }
}

/// The first loop of `decrement r t`, for `r` of non-zero value: the leading
/// `#`s of `r` and the `1` after them are taken from `r`, and `dec_head` is
/// appended to `t`.
proof fn lemma_decrement_head(s: MachineState, r: usize, t: usize)
    requires
        r != t,
        s.program == decrement_program(r, t),
        s.pc == 0,
        nonempty_only(s.registers),
        value(reg(s.registers, r)) > 0,
        s.step_count + dec_steps(reg(s.registers, r)) <= step_limit(s),
    ensures
        run_spec(s) == run_spec(
            MachineState {
                registers: store(
                    store(s.registers, r, dec_tail(reg(s.registers, r))),
                    t,
                    reg(s.registers, t) + dec_head(reg(s.registers, r)),
                ),
                pc: 8,
                step_count: s.step_count + dec_steps(reg(s.registers, r)),
                ..s
            },
        ),
    decreases reg(s.registers, r).len(),
{
    let w = reg(s.registers, r);
    let u = reg(s.registers, t);
    let p = decrement_program(r, t);
    assert(p.len() == 24);
    assert(p[0] == Instruction::Case(r));
    assert(p[2] == Instruction::Forward(2));
    assert(p[3] == Instruction::Forward(3));
    assert(p[4] == Instruction::AddHash(t));
    assert(p[5] == Instruction::Forward(3));
    assert(p[6] == Instruction::AddOne(t));
    assert(p[7] == Instruction::Backward(7));
    assert(w.len() > 0);
    let rest = w.drop_first();
    assert(value(w) == bit(w[0]) + 2 * value(rest));
    let t1 = step_spec(s).0;
    let t2 = step_spec(t1).0;
    let t3 = step_spec(t2).0;
    let t4 = step_spec(t3).0;
    assert(run_spec(s) == run_spec(t1));
    assert(run_spec(t1) == run_spec(t2));
    assert(run_spec(t2) == run_spec(t3));
    assert(run_spec(t3) == run_spec(t4));
    let m1 = store(s.registers, r, rest);
    assert(t1.registers == m1);
    assert(reg(m1, t) == u);
    if w[0] == Symbol::Hash {
        assert(t3.registers == m1.insert(t, u.push(Symbol::One)));
        assert(t4.pc == 0);
        assert(reg(t4.registers, r) =~= rest);
        assert(reg(t4.registers, t) == u.push(Symbol::One));
        lemma_decrement_head(t4, r, t);
        assert(u.push(Symbol::One) + dec_head(rest) =~= u + dec_head(w));
        assert(store(store(t4.registers, r, dec_tail(rest)), t, u.push(Symbol::One) + dec_head(rest))
            =~= store(store(s.registers, r, dec_tail(w)), t, u + dec_head(w)));
    } else {
        assert(t3.registers == m1.insert(t, u.push(Symbol::Hash)));
        assert(t4.pc == 8);
        assert(u.push(Symbol::Hash) =~= u + dec_head(w));
        assert(t4.registers =~= store(store(s.registers, r, dec_tail(w)), t, u + dec_head(w)));
    }
}

/// Running the program of `decrement r t`, for two different registers with
/// `t` empty and `r` of non-zero value, subtracts one from the value of `r`
/// (its word becomes `decremented(w)`) and leaves `t` empty and every other
/// register as it was; it halts after `decrement_steps(w)` steps when the
/// step limit allows.
pub proof fn lemma_decrement_subtracts_one(s: MachineState, r: usize, t: usize)
    requires
        r != t,
        s.program == decrement_program(r, t),
        s.pc == 0,
        nonempty_only(s.registers),
        reg(s.registers, t).len() == 0,
        value(reg(s.registers, r)) > 0,
        s.step_count + decrement_steps(reg(s.registers, r)) <= step_limit(s),
    ensures
        run_spec(s) == (MachineState {
            registers: store(s.registers, r, decremented(reg(s.registers, r))),
            pc: 24,
            step_count: s.step_count + decrement_steps(reg(s.registers, r)),
            ..s
        }, RunResult::Halted),
        value(decremented(reg(s.registers, r))) + 1 == value(reg(s.registers, r)),
{
    let w = reg(s.registers, r);
    let p = decrement_program(r, t);
    lemma_decremented_value(w);
    assert(p.len() == 24);
    assert(p.subrange(8, 16) =~= move_program(r, t));
    assert(p.subrange(16, 24) =~= move_program(t, r));
    lemma_decrement_head(s, r, t);
    let sa = MachineState {
        registers: store(store(s.registers, r, dec_tail(w)), t, reg(s.registers, t) + dec_head(w)),
        pc: 8,
        step_count: s.step_count + dec_steps(w),
        ..s
    };
    assert(reg(s.registers, t) + dec_head(w) =~= dec_head(w));
    assert(reg(sa.registers, r) =~= dec_tail(w));
    assert(reg(sa.registers, t) == dec_head(w));
    lemma_move_at(sa, r, t, 8);
    let sb = after_move(sa, r, t, 8);
    assert(reg(sb.registers, t) == decremented(w));
    assert(reg(sb.registers, r).len() == 0);
    lemma_move_at(sb, t, r, 16);
    let sc = after_move(sb, t, r, 16);
    assert(reg(sb.registers, r) + decremented(w) =~= decremented(w));
    assert(!s.registers.contains_key(t));
    assert(sc.registers =~= store(s.registers, r, decremented(w)));
}

/// The number of `1`s in `w`.
pub open spec fn ones_in(w: Seq<Symbol>) -> nat
    decreases w.len(),
{
    if w.len() == 0 {
        0
    } else {
        (if w[0] == Symbol::One { 1nat } else { 0nat }) + ones_in(w.drop_first())
    }
}

/// A word has a non-zero value exactly when it holds a `1`.
pub proof fn lemma_ones_in_value(w: Seq<Symbol>)
    ensures
        (ones_in(w) > 0) == (value(w) > 0),
    decreases w.len(),
{
    if w.len() > 0 {
        lemma_ones_in_value(w.drop_first());
        assert(value(w) == bit(w[0]) + 2 * value(w.drop_first()));
    }
}

/// `n` copies of `1`.
pub open spec fn ones_word(n: nat) -> Seq<Symbol> {
    Seq::new(n, |i: int| Symbol::One)
}

/// The program of `is_nonzero r t1 t2 nz z`, with `jz` and `jnz` the jumps
/// that its `goto z` and `goto nz` become where the labels `z` and `nz`
/// stand in the whole program.
pub open spec fn is_nonzero_program(
    r: usize,
    t1: usize,
    t2: usize,
    jz: Instruction,
    jnz: Instruction,
) -> Seq<Instruction> {
    seq![
        Instruction::Case(r),
        Instruction::Forward(8),
        Instruction::Forward(2),
        Instruction::Forward(4),
        Instruction::AddOne(t1),
        Instruction::AddOne(t2),
        Instruction::Backward(6),
        Instruction::AddHash(t1),
        Instruction::Backward(8),
    ] + move_program(t1, r) + seq![
        Instruction::Case(t2),
        jz,
        Instruction::Forward(2),
        Instruction::Forward(1),
        Instruction::Case(t2),
        jnz,
        Instruction::Backward(2),
        Instruction::Backward(3),
    ]
}


proof fn lemma_isz_program_at(r: usize, t1: usize, t2: usize, jz: Instruction, jnz: Instruction, prog: Seq<Instruction>)
    requires
        25 <= prog.len(),
        prog.subrange(0, 25) == is_nonzero_program(r, t1, t2, jz, jnz),
    ensures
        ({
            let p = prog;
            &&& p[0] == Instruction::Case(r)
            &&& p[1] == Instruction::Forward(8)
            &&& p[2] == Instruction::Forward(2)
            &&& p[3] == Instruction::Forward(4)
            &&& p[4] == Instruction::AddOne(t1)
            &&& p[5] == Instruction::AddOne(t2)
            &&& p[6] == Instruction::Backward(6)
            &&& p[7] == Instruction::AddHash(t1)
            &&& p[8] == Instruction::Backward(8)
            &&& p[9] == Instruction::Case(t1)
            &&& p[10] == Instruction::Forward(7)
            &&& p[11] == Instruction::Forward(2)
            &&& p[12] == Instruction::Forward(3)
            &&& p[13] == Instruction::AddOne(r)
            &&& p[14] == Instruction::Backward(5)
            &&& p[15] == Instruction::AddHash(r)
            &&& p[16] == Instruction::Backward(7)
            &&& p[17] == Instruction::Case(t2)
            &&& p[18] == jz
            &&& p[19] == Instruction::Forward(2)
            &&& p[20] == Instruction::Forward(1)
            &&& p[21] == Instruction::Case(t2)
            &&& p[22] == jnz
            &&& p[23] == Instruction::Backward(2)
            &&& p[24] == Instruction::Backward(3)
        }),
{
    let q = is_nonzero_program(r, t1, t2, jz, jnz);
    assert(q =~= seq![
        Instruction::Case(r),
        Instruction::Forward(8),
        Instruction::Forward(2),
        Instruction::Forward(4),
        Instruction::AddOne(t1),
        Instruction::AddOne(t2),
        Instruction::Backward(6),
        Instruction::AddHash(t1),
        Instruction::Backward(8),
        Instruction::Case(t1),
        Instruction::Forward(7),
        Instruction::Forward(2),
        Instruction::Forward(3),
        Instruction::AddOne(r),
        Instruction::Backward(5),
        Instruction::AddHash(r),
        Instruction::Backward(7),
        Instruction::Case(t2),
        jz,
        Instruction::Forward(2),
        Instruction::Forward(1),
        Instruction::Case(t2),
        jnz,
        Instruction::Backward(2),
        Instruction::Backward(3),
    ]);
    assert forall|k: int| 0 <= k < 25 implies prog[k] == q[k] by {
        assert(prog.subrange(0, 25)[k] == prog[k]);
    }
}

/// The steps of the first loop of `is_nonzero` on the word `w`: five per
/// `1`, four per `#`, and two at the end.
pub open spec fn isz_scan_steps(w: Seq<Symbol>) -> nat
    decreases w.len(),
{
    if w.len() == 0 {
        2
    } else {
        (if w[0] == Symbol::One { 5nat } else { 4nat }) + isz_scan_steps(w.drop_first())
    }
}

/// The first loop of `is_nonzero r t1 t2`: the word of `r` is moved to the
/// end of `t1`, and a `1` is put in `t2` for each `1` of it.
proof fn lemma_isz_scan(s: MachineState, r: usize, t1: usize, t2: usize, jz: Instruction, jnz: Instruction)
    requires
        r != t1 && r != t2 && t1 != t2,
        25 <= s.program.len() < usize::MAX,
        s.program.subrange(0, 25) == is_nonzero_program(r, t1, t2, jz, jnz),
        s.pc == 0,
        nonempty_only(s.registers),
        s.step_count + isz_scan_steps(reg(s.registers, r)) <= step_limit(s),
    ensures
        run_spec(s) == run_spec(
            MachineState {
                registers: store(
                    store(
                        s.registers.remove(r),
                        t1,
                        reg(s.registers, t1) + reg(s.registers, r),
                    ),
                    t2,
                    reg(s.registers, t2) + ones_word(ones_in(reg(s.registers, r))),
                ),
                pc: 9,
                step_count: s.step_count + isz_scan_steps(reg(s.registers, r)),
                ..s
            },
        ),
    decreases reg(s.registers, r).len(),
{
    let w = reg(s.registers, r);
    let u1 = reg(s.registers, t1);
    let u2 = reg(s.registers, t2);
    lemma_isz_program_at(r, t1, t2, jz, jnz, s.program);
    assert(s.program[0] == Instruction::Case(r));
    assert(s.program[1] == Instruction::Forward(8));
    assert(s.program[2] == Instruction::Forward(2));
    assert(s.program[3] == Instruction::Forward(4));
    assert(s.program[4] == Instruction::AddOne(t1));
    assert(s.program[5] == Instruction::AddOne(t2));
    assert(s.program[6] == Instruction::Backward(6));
    assert(s.program[7] == Instruction::AddHash(t1));
    assert(s.program[8] == Instruction::Backward(8));
    let t1s = step_spec(s).0;
    let t2s = step_spec(t1s).0;
    assert(run_spec(s) == run_spec(t1s));
    assert(run_spec(t1s) == run_spec(t2s));
    if w.len() == 0 {
        assert(!s.registers.contains_key(r));
        assert(u1 + w =~= u1);
        assert(ones_word(0) =~= Seq::<Symbol>::empty());
        assert(u2 + ones_word(ones_in(w)) =~= u2);
        assert(t2s.registers =~= store(store(s.registers.remove(r), t1, u1 + w), t2, u2 + ones_word(ones_in(w))));
    } else {
        let rest = w.drop_first();
        let m1 = store(s.registers, r, rest);
        assert(t1s.registers == m1);
        assert(reg(m1, t1) == u1 && reg(m1, t2) == u2);
        let t3s = step_spec(t2s).0;
        let t4s = step_spec(t3s).0;
        assert(run_spec(t2s) == run_spec(t3s));
        assert(run_spec(t3s) == run_spec(t4s));
        if w[0] == Symbol::One {
            let t5s = step_spec(t4s).0;
            assert(run_spec(t4s) == run_spec(t5s));
            let m2 = m1.insert(t1, u1.push(Symbol::One));
            assert(t3s.registers == m2);
            assert(reg(m2, t2) == u2);
            assert(t4s.registers == m2.insert(t2, u2.push(Symbol::One)));
            assert(t5s.pc == 0);
            assert(reg(t5s.registers, r) =~= rest);
            assert(reg(t5s.registers, t1) == u1.push(Symbol::One));
            assert(reg(t5s.registers, t2) == u2.push(Symbol::One));
            lemma_isz_scan(t5s, r, t1, t2, jz, jnz);
            assert(u1.push(Symbol::One) + rest =~= u1 + w);
            assert(u2.push(Symbol::One) + ones_word(ones_in(rest)) =~= u2 + ones_word(ones_in(w)));
            assert(store(
                store(t5s.registers.remove(r), t1, u1.push(Symbol::One) + rest),
                t2,
                u2.push(Symbol::One) + ones_word(ones_in(rest)),
            ) =~= store(store(s.registers.remove(r), t1, u1 + w), t2, u2 + ones_word(ones_in(w))));
        } else {
            let m2 = m1.insert(t1, u1.push(Symbol::Hash));
            assert(t3s.registers == m2);
            assert(t4s.pc == 0);
            assert(reg(t4s.registers, r) =~= rest);
            assert(reg(t4s.registers, t1) == u1.push(Symbol::Hash));
            assert(reg(t4s.registers, t2) == u2);
            lemma_isz_scan(t4s, r, t1, t2, jz, jnz);
            assert(u1.push(Symbol::Hash) + rest =~= u1 + w);
            assert(ones_in(w) == ones_in(rest));
            assert(store(
                store(t4s.registers.remove(r), t1, u1.push(Symbol::Hash) + rest),
                t2,
                u2 + ones_word(ones_in(rest)),
            ) =~= store(store(s.registers.remove(r), t1, u1 + w), t2, u2 + ones_word(ones_in(w))));
        }
    }
}

/// The drain loop of `is_nonzero` at index 21: `t2` is emptied, and the run
/// reaches the `goto nz` at index 22.
proof fn lemma_isz_drain(s: MachineState, r: usize, t1: usize, t2: usize, jz: Instruction, jnz: Instruction)
    requires
        r != t1 && r != t2 && t1 != t2,
        25 <= s.program.len() < usize::MAX,
        s.program.subrange(0, 25) == is_nonzero_program(r, t1, t2, jz, jnz),
        s.pc == 21,
        nonempty_only(s.registers),
        reg(s.registers, t2) == ones_word(reg(s.registers, t2).len()),
        s.step_count + 2 * reg(s.registers, t2).len() + 1 <= step_limit(s),
    ensures
        run_spec(s) == run_spec(
            MachineState {
                registers: s.registers.remove(t2),
                pc: 22,
                step_count: s.step_count + 2 * reg(s.registers, t2).len() + 1,
                ..s
            },
        ),
    decreases reg(s.registers, t2).len(),
{
    let u = reg(s.registers, t2);
    lemma_isz_program_at(r, t1, t2, jz, jnz, s.program);
    assert(s.program[21] == Instruction::Case(t2));
    assert(s.program[23] == Instruction::Backward(2));
    let a = step_spec(s).0;
    if u.len() == 0 {
        assert(!s.registers.contains_key(t2));
        assert(s.registers.remove(t2) =~= s.registers);
        assert(run_spec(s) == run_spec(a));
    } else {
        assert(u[0] == Symbol::One);
        let b = step_spec(a).0;
        assert(run_spec(s) == run_spec(a));
        assert(run_spec(a) == run_spec(b));
        assert(b.pc == 21);
        assert(reg(b.registers, t2) =~= u.drop_first());
        assert(u.drop_first() =~= ones_word(u.drop_first().len()));
        lemma_isz_drain(b, r, t1, t2, jz, jnz);
        assert(b.registers.remove(t2) =~= s.registers.remove(t2));
    }
}

/// Running the program of `is_nonzero r t1 t2 nz z`, placed at the start of
/// a program, for three different registers with `t1` and `t2` empty: `r`
/// keeps its word, `t1` and `t2` end empty, every other register stays as
/// it was, and the run reaches the `goto nz` (index 22) when the value of
/// `r` is non-zero and the `goto z` (index 18) when it is zero.
pub proof fn lemma_is_nonzero_branches(
    s: MachineState,
    r: usize,
    t1: usize,
    t2: usize,
    jz: Instruction,
    jnz: Instruction,
)
    requires
        r != t1 && r != t2 && t1 != t2,
        25 <= s.program.len() < usize::MAX,
        s.program.subrange(0, 25) == is_nonzero_program(r, t1, t2, jz, jnz),
        s.pc == 0,
        nonempty_only(s.registers),
        reg(s.registers, t1).len() == 0,
        reg(s.registers, t2).len() == 0,
        s.step_count + isz_scan_steps(reg(s.registers, r)) + 4 * reg(s.registers, r).len() + 2 + 2
            * ones_in(reg(s.registers, r)) + 1 <= step_limit(s),
    ensures
        run_spec(s) == run_spec(
            MachineState {
                registers: s.registers,
                pc: if value(reg(s.registers, r)) > 0 {
                    22
                } else {
                    18
                },
                step_count: s.step_count + isz_scan_steps(reg(s.registers, r)) + 4 * reg(
                    s.registers,
                    r,
                ).len() + 2 + 2 * ones_in(reg(s.registers, r)) + 1,
                ..s
            },
        ),
{
    let w = reg(s.registers, r);
    let k = ones_in(w);
    lemma_ones_in_value(w);
    let p = is_nonzero_program(r, t1, t2, jz, jnz);
    assert(p.subrange(9, 17) =~= move_program(t1, r));
    assert(s.program.subrange(9, 17) =~= s.program.subrange(0, 25).subrange(9, 17));
    lemma_isz_scan(s, r, t1, t2, jz, jnz);
    let sa = MachineState {
        registers: store(
            store(s.registers.remove(r), t1, reg(s.registers, t1) + w),
            t2,
            reg(s.registers, t2) + ones_word(k),
        ),
        pc: 9,
        step_count: s.step_count + isz_scan_steps(w),
        ..s
    };
    assert(reg(s.registers, t1) + w =~= w);
    assert(reg(s.registers, t2) + ones_word(k) =~= ones_word(k));
    assert(reg(sa.registers, t1) == w);
    assert(reg(sa.registers, r).len() == 0);
    assert(reg(sa.registers, t2) == ones_word(k));
    lemma_move_at(sa, t1, r, 9);
    let sb = after_move(sa, t1, r, 9);
    assert(reg(sa.registers, r) + w =~= w);
    assert(!s.registers.contains_key(t1) && !s.registers.contains_key(t2));
    assert(reg(sb.registers, t2) == ones_word(k));
    lemma_isz_program_at(r, t1, t2, jz, jnz, s.program);
    assert(s.program[17] == Instruction::Case(t2));
    assert(s.program[19] == Instruction::Forward(2));
    let c1 = step_spec(sb).0;
    assert(run_spec(sb) == run_spec(c1));
    if k == 0 {
        assert(ones_word(0) =~= Seq::<Symbol>::empty());
        assert(c1.pc == 18);
        assert(c1.registers =~= s.registers);
    } else {
        let c2 = step_spec(c1).0;
        assert(run_spec(c1) == run_spec(c2));
        assert(c2.pc == 21);
        assert(reg(c2.registers, t2) =~= ones_word((k - 1) as nat));
        lemma_isz_drain(c2, r, t1, t2, jz, jnz);
        assert(c2.registers.remove(t2) =~= s.registers);
    }
}

/// Running the program of `clear r` placed at index `o` of a longer program:
/// when it is the end of the program, the run halts with `r` empty;
/// otherwise the run goes on from just past it with `r` empty.
pub proof fn lemma_clear_at(s: MachineState, r: usize, o: nat)
    requires
        o + 4 <= s.program.len() < usize::MAX,
        s.program.subrange(o as int, o + 4int) == clear_program(r),
        s.pc == o,
        nonempty_only(s.registers),
        s.step_count + 2 * reg(s.registers, r).len() + 2 <= step_limit(s),
    ensures
        ({
            let end = MachineState {
                registers: s.registers.remove(r),
                pc: o + 4,
                step_count: s.step_count + 2 * reg(s.registers, r).len() + 2,
                ..s
            };
            if o + 4 == s.program.len() {
                run_spec(s) == (end, RunResult::Halted)
            } else {
                run_spec(s) == run_spec(end)
            }
        }),
    decreases reg(s.registers, r).len(),
{
    let w = reg(s.registers, r);
    let p = clear_program(r);
    assert forall|k: int| 0 <= k < 4 implies s.program[o + k] == p[k] by {
        assert(s.program.subrange(o as int, o + 4int)[k] == s.program[o + k]);
    }
    assert(s.program[o as int] == p[0]);
    assert(s.program[o + 1int] == p[1]);
    assert(s.program[o + 2int] == p[2]);
    assert(s.program[o + 3int] == p[3]);
    let t1 = step_spec(s).0;
    assert(run_spec(s) == run_spec(t1));
    if w.len() == 0 {
        assert(!s.registers.contains_key(r));
        assert(s.registers.remove(r) =~= s.registers);
        if o + 4 == s.program.len() {
            assert(run_spec(t1) == (step_spec(t1).0, RunResult::Halted));
        } else {
            assert(run_spec(t1) == run_spec(step_spec(t1).0));
        }
    } else {
        let t2 = step_spec(t1).0;
        assert(t2.pc == o);
        assert(t2.registers == store(s.registers, r, w.drop_first()));
        assert(reg(t2.registers, r) =~= w.drop_first());
        lemma_clear_at(t2, r, o);
        assert(t2.registers.remove(r) =~= s.registers.remove(r));
        assert(run_spec(t1) == run_spec(t2));
    }
}

/// What `write` puts out for a word: the 1# program that appends the word
/// to register 1, `1#` for each `1` and `1##` for each `#`.
pub open spec fn write_word(w: Seq<Symbol>) -> Seq<Symbol>
    decreases w.len(),
{
    if w.len() == 0 {
        w
    } else {
        (if w[0] == Symbol::One {
            seq![Symbol::One, Symbol::Hash]
        } else {
            seq![Symbol::One, Symbol::Hash, Symbol::Hash]
        }) + write_word(w.drop_first())
    }
}

/// The steps of the loop of `write` on the word `w`: five per `1`, six per
/// `#`, and two at the end.
pub open spec fn write_steps(w: Seq<Symbol>) -> nat
    decreases w.len(),
{
    if w.len() == 0 {
        2
    } else {
        (if w[0] == Symbol::One { 5nat } else { 6nat }) + write_steps(w.drop_first())
    }
}

/// The program of `write i o t`: `clear o`, `move i t`, then a loop that
/// writes each symbol of `t` to `o`.
pub open spec fn write_program(i: usize, o: usize, t: usize) -> Seq<Instruction> {
    clear_program(o) + move_program(i, t) + seq![
        Instruction::Case(t),
        Instruction::Forward(10),
        Instruction::Forward(2),
        Instruction::Forward(4),
        Instruction::AddOne(o),
        Instruction::AddHash(o),
        Instruction::Backward(6),
        Instruction::AddOne(o),
        Instruction::AddHash(o),
        Instruction::AddHash(o),
        Instruction::Backward(10),
    ]
}

proof fn lemma_write_loop(s: MachineState, i: usize, o: usize, t: usize)
    requires
        i != o && i != t && o != t,
        s.program == write_program(i, o, t),
        s.pc == 12,
        nonempty_only(s.registers),
        s.step_count + write_steps(reg(s.registers, t)) <= step_limit(s),
    ensures
        run_spec(s) == (MachineState {
            registers: store(
                s.registers.remove(t),
                o,
                reg(s.registers, o) + write_word(reg(s.registers, t)),
            ),
            pc: 23,
            step_count: s.step_count + write_steps(reg(s.registers, t)),
            ..s
        }, RunResult::Halted),
    decreases reg(s.registers, t).len(),
{
    let w = reg(s.registers, t);
    let v = reg(s.registers, o);
    let p = write_program(i, o, t);
    assert(p =~= clear_program(o) + move_program(i, t) + seq![
        Instruction::Case(t),
        Instruction::Forward(10),
        Instruction::Forward(2),
        Instruction::Forward(4),
        Instruction::AddOne(o),
        Instruction::AddHash(o),
        Instruction::Backward(6),
        Instruction::AddOne(o),
        Instruction::AddHash(o),
        Instruction::AddHash(o),
        Instruction::Backward(10),
    ]);
    assert(p.len() == 23);
    assert(p[12] == Instruction::Case(t));
    assert(p[13] == Instruction::Forward(10));
    assert(p[14] == Instruction::Forward(2));
    assert(p[15] == Instruction::Forward(4));
    assert(p[16] == Instruction::AddOne(o));
    assert(p[17] == Instruction::AddHash(o));
    assert(p[18] == Instruction::Backward(6));
    assert(p[19] == Instruction::AddOne(o));
    assert(p[20] == Instruction::AddHash(o));
    assert(p[21] == Instruction::AddHash(o));
    assert(p[22] == Instruction::Backward(10));
    let a1 = step_spec(s).0;
    let a2 = step_spec(a1).0;
    assert(run_spec(s) == run_spec(a1));
    if w.len() == 0 {
        assert(!s.registers.contains_key(t));
        assert(v + write_word(w) =~= v);
        assert(store(s.registers.remove(t), o, v + write_word(w)) =~= s.registers);
        assert(run_spec(a1) == (a2, RunResult::Halted));
    } else {
        let rest = w.drop_first();
        let m1 = store(s.registers, t, rest);
        assert(a1.registers == m1);
        assert(reg(m1, o) == v);
        let a3 = step_spec(a2).0;
        let a4 = step_spec(a3).0;
        let a5 = step_spec(a4).0;
        assert(run_spec(a1) == run_spec(a2));
        assert(run_spec(a2) == run_spec(a3));
        assert(run_spec(a3) == run_spec(a4));
        assert(run_spec(a4) == run_spec(a5));
        if w[0] == Symbol::One {
            let enc = seq![Symbol::One, Symbol::Hash];
            assert(a5.pc == 12);
            assert(a5.registers == m1.insert(o, v.push(Symbol::One)).insert(o, v.push(Symbol::One).push(Symbol::Hash)));
            assert(reg(a5.registers, t) =~= rest);
            assert(reg(a5.registers, o) =~= v + enc);
            lemma_write_loop(a5, i, o, t);
            assert(v + enc + write_word(rest) =~= v + write_word(w));
            assert(store(a5.registers.remove(t), o, v + enc + write_word(rest)) =~= store(
                s.registers.remove(t),
                o,
                v + write_word(w),
            ));
        } else {
            let enc = seq![Symbol::One, Symbol::Hash, Symbol::Hash];
            let a6 = step_spec(a5).0;
            assert(run_spec(a5) == run_spec(a6));
            assert(a6.pc == 12);
            assert(reg(a6.registers, t) =~= rest);
            assert(reg(a6.registers, o) =~= v + enc);
            lemma_write_loop(a6, i, o, t);
            assert(v + enc + write_word(rest) =~= v + write_word(w));
            assert(store(a6.registers.remove(t), o, v + enc + write_word(rest)) =~= store(
                s.registers.remove(t),
                o,
                v + write_word(w),
            ));
        }
    }
}

/// Running the program of `write i o t`, for three different registers with
/// `t` empty: register `o` ends holding `write_word(w)` for the word `w` of
/// `i` (its old word is cleared first), and `i` and `t` end empty; every
/// other register stays as it was.
pub proof fn lemma_write_writes(s: MachineState, i: usize, o: usize, t: usize)
    requires
        i != o && i != t && o != t,
        s.program == write_program(i, o, t),
        s.pc == 0,
        nonempty_only(s.registers),
        reg(s.registers, t).len() == 0,
        s.step_count + 2 * reg(s.registers, o).len() + 2 + 4 * reg(s.registers, i).len() + 2
            + write_steps(reg(s.registers, i)) <= step_limit(s),
    ensures
        run_spec(s) == (MachineState {
            registers: store(s.registers.remove(i), o, write_word(reg(s.registers, i))),
            pc: 23,
            step_count: s.step_count + 2 * reg(s.registers, o).len() + 2 + 4 * reg(
                s.registers,
                i,
            ).len() + 2 + write_steps(reg(s.registers, i)),
            ..s
        }, RunResult::Halted),
{
    let w = reg(s.registers, i);
    let p = write_program(i, o, t);
    assert(p.len() == 23);
    assert(p.subrange(0, 4) =~= clear_program(o));
    assert(p.subrange(4, 12) =~= move_program(i, t));
    lemma_clear_at(s, o, 0);
    let s1 = MachineState {
        registers: s.registers.remove(o),
        pc: 4,
        step_count: s.step_count + 2 * reg(s.registers, o).len() + 2,
        ..s
    };
    assert(reg(s1.registers, i) == w);
    assert(reg(s1.registers, t).len() == 0);
    lemma_move_at(s1, i, t, 4);
    let s2 = after_move(s1, i, t, 4);
    assert(reg(s1.registers, t) + w =~= w);
    assert(reg(s2.registers, t) == w);
    assert(reg(s2.registers, o).len() == 0);
    lemma_write_loop(s2, i, o, t);
    assert(reg(s2.registers, o) + write_word(w) =~= write_word(w));
    assert(!s.registers.contains_key(t));
    assert(store(s2.registers.remove(t), o, write_word(w)) =~= store(s.registers.remove(i), o, write_word(w)));
}

} // verus!
