//! The 1# virtual machine.
//!
//! Executes 1# programs on a register-based machine.
use vstd::prelude::*;

use std::collections::HashMap;

use crate::instruction::Instruction;
use crate::types::{Symbol, Word};

verus! {

/// The result of running the machine.
#[derive(Debug, Clone, PartialEq, Eq, Structural)]
pub enum RunResult {
    /// The program halted normally (PC reached end of program).
    Halted,
    /// The program stopped improperly (PC went out of bounds).
    StoppedImproperly,
    /// The maximum step limit was reached.
    MaxStepsReached,
}

/// The result of a single step.
#[derive(Debug, PartialEq, Eq, Structural)]
pub enum StepResult {
    Continue,
    Halted,
    StoppedImproperly,
}

/// The state of the 1# machine.
pub struct Machine {
    registers: HashMap<usize, Word>,
    program: Vec<Instruction>,
    pc: usize,
    step_count: usize,
    max_steps: Option<usize>,
    empty: Word,
}

/// The abstract state of a machine.
pub struct MachineState {
    /// The non-empty registers, with their words.
    pub registers: Map<usize, Seq<Symbol>>,
    pub program: Seq<Instruction>,
    /// Index of the next instruction.
    pub pc: nat,
    /// Number of instructions executed.
    pub step_count: nat,
    pub max_steps: Option<usize>,
}

/// The word in register `n`; a register never written is empty.
pub open spec fn reg(m: Map<usize, Seq<Symbol>>, n: usize) -> Seq<Symbol> {
    if m.contains_key(n) {
        m[n]
    } else {
        Seq::empty()
    }
}

/// The registers after register `n` is given the word `w`: a register is
/// kept only while it is non-empty.
pub open spec fn store(m: Map<usize, Seq<Symbol>>, n: usize, w: Seq<Symbol>) -> Map<usize, Seq<Symbol>> {
    if w.len() == 0 {
        m.remove(n)
    } else {
        m.insert(n, w)
    }
}

/// Every register held in the map is non-empty.
pub open spec fn nonempty_only(m: Map<usize, Seq<Symbol>>) -> bool {
    forall|n: usize| #[trigger] m.contains_key(n) ==> m[n].len() > 0
}

/// Reading a register after `set_register` gives back the word written there;
/// every other register keeps its word.
pub proof fn lemma_register_read_after_write(m: Map<usize, Seq<Symbol>>, n: usize, w: Seq<Symbol>, k: usize)
    ensures
        reg(store(m, n, w), k) == if k == n {
            w
        } else {
            reg(m, k)
        },
{
}

/// `pc + k`, held at `usize::MAX`: every value past the last instruction
/// stops the machine the same way.
pub open spec fn advance(pc: nat, k: nat) -> nat {
    if pc + k > usize::MAX {
        usize::MAX as nat
    } else {
        pc + k
    }
}

/// How a program counter ends a step: at the end of the program it halts,
/// past it it stops improperly.
pub open spec fn landing(pc: nat, len: nat) -> StepResult {
    if pc == len {
        StepResult::Halted
    } else if pc > len {
        StepResult::StoppedImproperly
    } else {
        StepResult::Continue
    }
}

/// One step of the machine: the state after it and how it ended.
///
/// - `AddOne(r)` / `AddHash(r)` append `1` / `#` to register `r` and go to the
///   next instruction.
/// - `Forward(n)` / `Backward(n)` move the program counter by `n`; moving
///   before the first instruction stops the machine improperly.
/// - `Case(r)` goes to the next instruction when `r` is empty; otherwise it
///   removes the first symbol of `r` and skips one instruction when it was
///   `1`, two when it was `#`. A register emptied this way leaves the map.
pub open spec fn step_spec(s: MachineState) -> (MachineState, StepResult) {
    let n = s.program.len();
    if s.pc == n {
        (s, StepResult::Halted)
    } else if s.pc > n {
        (s, StepResult::StoppedImproperly)
    } else {
        let t = MachineState { step_count: s.step_count + 1, ..s };
        match s.program[s.pc as int] {
            Instruction::AddOne(r) => {
                let u = MachineState {
                    registers: s.registers.insert(r, reg(s.registers, r).push(Symbol::One)),
                    pc: advance(s.pc, 1),
                    ..t
                };
                (u, landing(u.pc, n))
            },
            Instruction::AddHash(r) => {
                let u = MachineState {
                    registers: s.registers.insert(r, reg(s.registers, r).push(Symbol::Hash)),
                    pc: advance(s.pc, 1),
                    ..t
                };
                (u, landing(u.pc, n))
            },
            Instruction::Forward(k) => {
                let u = MachineState { pc: advance(s.pc, k as nat), ..t };
                (u, landing(u.pc, n))
            },
            Instruction::Backward(k) => {
                if k > s.pc {
                    (t, StepResult::StoppedImproperly)
                } else {
                    let u = MachineState { pc: (s.pc - k) as nat, ..t };
                    (u, landing(u.pc, n))
                }
            },
            Instruction::Case(r) => {
                let w = reg(s.registers, r);
                if w.len() == 0 {
                    let u = MachineState { pc: advance(s.pc, 1), ..t };
                    (u, landing(u.pc, n))
                } else {
                    let skip: nat = if w[0] == Symbol::One {
                        2
                    } else {
                        3
                    };
                    let u = MachineState {
                        registers: store(s.registers, r, w.drop_first()),
                        pc: advance(s.pc, skip),
                        ..t
                    };
                    (u, landing(u.pc, n))
                }
            },
        }
    }
}

/// The number of steps after which `run` stops: the maximum set with
/// `with_max_steps`, else `usize::MAX`, the most a step counter can count.
pub open spec fn step_limit(s: MachineState) -> nat {
    match s.max_steps {
        Some(m) => m as nat,
        None => usize::MAX as nat,
    }
}

/// A step that continues has executed one instruction.
pub proof fn lemma_step_continue_counts(s: MachineState)
    ensures
        step_spec(s).1 == StepResult::Continue ==> step_spec(s).0.step_count == s.step_count + 1,
        step_spec(s).1 == StepResult::Continue ==> step_spec(s).0.program == s.program,
        step_spec(s).1 == StepResult::Continue ==> step_spec(s).0.max_steps == s.max_steps,
{
}

/// Running the machine: steps until it halts, stops improperly, or has
/// executed its step limit.
pub open spec fn run_spec(s: MachineState) -> (MachineState, RunResult)
    decreases step_limit(s) - s.step_count,
{
    if s.step_count >= step_limit(s) {
        (s, RunResult::MaxStepsReached)
    } else {
        let (t, r) = step_spec(s);
        match r {
            StepResult::Continue => {
                proof {
                    lemma_step_continue_counts(s);
                }
                run_spec(t)
            },
            StepResult::Halted => (t, RunResult::Halted),
            StepResult::StoppedImproperly => (t, RunResult::StoppedImproperly),
        }
    }
}

/// The words held by a map of registers.
pub open spec fn word_views(m: Map<usize, Word>) -> Map<usize, Seq<Symbol>> {
    m.map_values(|w: Word| w@)
}

proof fn lemma_word_views_insert(m: Map<usize, Word>, k: usize, w: Word)
    ensures
        word_views(m.insert(k, w)) == word_views(m).insert(k, w@),
{
    assert(word_views(m.insert(k, w)) =~= word_views(m).insert(k, w@));
}

proof fn lemma_word_views_remove(m: Map<usize, Word>, k: usize)
    ensures
        word_views(m.remove(k)) == word_views(m).remove(k),
{
    assert(word_views(m.remove(k)) =~= word_views(m).remove(k));
}

impl View for Machine {
    type V = MachineState;

    closed spec fn view(&self) -> MachineState {
        MachineState {
            registers: word_views(self.registers@),
            program: self.program@,
            pc: self.pc as nat,
            step_count: self.step_count as nat,
            max_steps: self.max_steps,
        }
    }
}

impl Machine {
    /// The machine's internal invariant: its stand-in for an absent register
    /// is empty, it holds only non-empty registers, and its program is shorter
    /// than `usize::MAX`.
    pub closed spec fn wf(&self) -> bool {
        &&& self.empty@.len() == 0
        &&& nonempty_only(self@.registers)
        &&& self.program@.len() < usize::MAX
    }

    /// The length of the program is below `usize::MAX`.
    pub fn program_len(&self) -> (n: usize)
        requires
            self.wf(),
        ensures
            n == self@.program.len(),
            n < usize::MAX,
    {
        self.program.len()
    }

    /// Creates a new machine with the given program.
    pub fn new(program: Vec<Instruction>) -> (m: Self)
        requires
            program@.len() < usize::MAX,
        ensures
            m.wf(),
            m@ == (MachineState {
                registers: Map::empty(),
                program: program@,
                pc: 0,
                step_count: 0,
                max_steps: None,
            }),
    {
        let m = Machine {
            registers: HashMap::new(),
            program,
            pc: 0,
            step_count: 0,
            max_steps: None,
            empty: Vec::new(),
        };
        assert(m@.registers =~= Map::empty());
        m
    }

    /// Sets the maximum number of steps before stopping.
    pub fn with_max_steps(self, max: usize) -> (m: Self)
        ensures
            self.wf() ==> m.wf(),
            m@ == (MachineState { max_steps: Some(max), ..self@ }),
    {
        Machine { max_steps: Some(max), ..self }
    }

    /// Sets a register to the given word; an empty word leaves the register
    /// out of the map.
    pub fn set_register(&mut self, n: usize, word: Word)
        ensures
            old(self).wf() ==> final(self).wf(),
            final(self)@ == (MachineState {
                registers: store(old(self)@.registers, n, word@),
                ..old(self)@
            }),
    {
        let ghost ww = word;
        if word.len() == 0 {
            self.registers.remove(&n);
            proof {
                lemma_word_views_remove(old(self).registers@, n);
            }
        } else {
            self.registers.insert(n, word);
            proof {
                lemma_word_views_insert(old(self).registers@, n, ww);
            }
        }
    }

    /// Gets the contents of a register.
    pub fn get_register(&self, n: usize) -> (w: &Word)
        requires
            self.wf(),
        ensures
            w@ == reg(self@.registers, n),
    {
        match self.registers.get(&n) {
            Some(w) => w,
            None => &self.empty,
        }
    }

    /// Returns the number of steps executed.
    pub fn step_count(&self) -> (n: usize)
        ensures
            n == self@.step_count,
    {
        self.step_count
    }

    /// Returns the index of the next instruction.
    pub fn pc(&self) -> (n: usize)
        ensures
            n == self@.pc,
    {
        self.pc
    }

    /// Returns the program.
    pub fn program(&self) -> (p: &Vec<Instruction>)
        ensures
            p@ == self@.program,
    {
        &self.program
    }

    /// Returns all non-empty registers.
    pub fn registers(&self) -> (m: &HashMap<usize, Word>)
        requires
            self.wf(),
        ensures
            word_views(m@) == self@.registers,
            nonempty_only(self@.registers),
    {
        &self.registers
    }

    /// The non-empty registers with their words, by increasing register
    /// number.
    pub fn nonempty_registers(&self) -> (r: Vec<(usize, Word)>)
        requires
            self.wf(),
        ensures
            forall|i: int, j: int| 0 <= i < j < r@.len() ==> r@[i].0 < r@[j].0,
            forall|i: int|
                0 <= i < r@.len() ==> self@.registers.contains_key(#[trigger] r@[i].0)
                    && r@[i].1@ == self@.registers[r@[i].0],
            forall|n: usize|
                self@.registers.contains_key(n) ==> exists|i: int|
                    0 <= i < r@.len() && #[trigger] r@[i].0 == n,
    {
        let ks = self.register_numbers();
        let mut out: Vec<(usize, Word)> = Vec::new();
        let mut last: Option<usize> = None;
        loop
            invariant
                self.wf(),
                forall|n: usize| self@.registers.contains_key(n) <==> #[trigger] ks@.contains(n),
                forall|i: int, j: int| 0 <= i < j < out@.len() ==> out@[i].0 < out@[j].0,
                forall|i: int|
                    0 <= i < out@.len() ==> self@.registers.contains_key(#[trigger] out@[i].0)
                        && out@[i].1@ == self@.registers[out@[i].0],
                last is None <==> out@.len() == 0,
                last matches Some(l) ==> out@[out@.len() - 1].0 == l,
                forall|n: usize|
                    self@.registers.contains_key(n) && (last matches Some(l) && n <= l) ==> exists|
                        i: int,
                    | 0 <= i < out@.len() && #[trigger] out@[i].0 == n,
            decreases
                match last {
                    None => usize::MAX as int + 1,
                    Some(l) => usize::MAX - l,
                },
        {
            // The least register number above `last`.
            let mut best: Option<usize> = None;
            let mut i: usize = 0;
            while i < ks.len()
                invariant
                    i <= ks@.len(),
                    best matches Some(b) ==> ks@.contains(b) && (last matches Some(l) ==> b > l),
                    forall|j: int|
                        0 <= j < i && (last matches Some(l) ==> ks@[j] > l) ==> (best matches Some(
                            b,
                        ) && b <= #[trigger] ks@[j]),
                decreases ks@.len() - i,
            {
                let k = ks[i];
                let above = match last {
                    None => true,
                    Some(l) => k > l,
                };
                if above {
                    match best {
                        None => {
                            best = Some(k);
                        },
                        Some(b) => {
                            if k < b {
                                best = Some(k);
                            }
                        },
                    }
                }
                i = i + 1;
            }
            match best {
                None => {
                    assert forall|n: usize| self@.registers.contains_key(n) implies exists|i: int|
                        0 <= i < out@.len() && #[trigger] out@[i].0 == n by {
                        assert(ks@.contains(n));
                        let j = choose|j: int| 0 <= j < ks@.len() && ks@[j] == n;
                        assert(ks@[j] == n);
                    }
                    return out;
                },
                Some(b) => {
                    let w = self.get_register(b);
                    let mut copy: Word = Vec::new();
                    let mut j: usize = 0;
                    while j < w.len()
                        invariant
                            j <= w@.len(),
                            copy@ == w@.take(j as int),
                        decreases w@.len() - j,
                    {
                        copy.push(w[j]);
                        j = j + 1;
                        assert(copy@ =~= w@.take(j as int));
                    }
                    assert(w@.take(w@.len() as int) =~= w@);
                    let ghost prev = out@;
                    out.push((b, copy));
                    assert forall|n: usize|
                        self@.registers.contains_key(n) && n <= b implies exists|i: int|
                        0 <= i < out@.len() && #[trigger] out@[i].0 == n by {
                        if n == b {
                            assert(out@[prev.len() as int].0 == n);
                        } else if last matches Some(l) && n <= l {
                            let i0 = choose|i: int| 0 <= i < prev.len() && #[trigger] prev[i].0 == n;
                            assert(out@[i0].0 == n);
                        } else {
                            assert(ks@.contains(n));
                            let j0 = choose|j0: int| 0 <= j0 < ks@.len() && ks@[j0] == n;
                            assert(ks@[j0] == n);
                        }
                    }
                    last = Some(b);
                },
            }
        }
    }

    /// The numbers of the non-empty registers, in no particular order.
    fn register_numbers(&self) -> (ks: Vec<usize>)
        ensures
            forall|n: usize| self@.registers.contains_key(n) <==> #[trigger] ks@.contains(n),
    {
        broadcast use vstd::std_specs::hash::group_hash_axioms;

        let ghost all = vstd::std_specs::iter::IteratorSpec::remaining(&vstd::std_specs::hash::spec_keys_iter(&self.registers));
        let mut ks: Vec<usize> = Vec::new();
        for k in it: self.registers.keys()
            invariant
                it.seq() == all,
                ks@ == all.take(it.index()).unref(),
        {
            ks.push(*k);
            proof {
                assert(ks@ =~= all.take(it.index() + 1).unref());
            }
        }
        proof {
            assert(ks@ =~= all.unref());
            assert(all.unref().to_set() == self.registers@.dom());
            assert forall|n: usize| self@.registers.contains_key(n) <==> #[trigger] ks@.contains(n) by {
                if ks@.contains(n) {
                    assert(all.unref().to_set().contains(n));
                }
                if self@.registers.contains_key(n) {
                    assert(all.unref().to_set().contains(n));
                }
            }
        }
        ks
    }

    /// Takes register `r` out of the map, empty when absent.
    fn take_register(&mut self, r: usize) -> (w: Word)
        ensures
            old(self).wf() ==> final(self).wf(),
            w@ == reg(old(self)@.registers, r),
            final(self)@ == (MachineState {
                registers: old(self)@.registers.remove(r),
                ..old(self)@
            }),
    {
        let w = match self.registers.remove(&r) {
            Some(w) => w,
            None => Vec::new(),
        };
        proof {
            lemma_word_views_remove(old(self).registers@, r);
        }
        w
    }

    /// Appends `sym` to register `r`.
    fn append_symbol(&mut self, r: usize, sym: Symbol)
        ensures
            old(self).wf() ==> final(self).wf(),
            final(self)@ == (MachineState {
                registers: old(self)@.registers.insert(r, reg(old(self)@.registers, r).push(sym)),
                ..old(self)@
            }),
    {
        let mut w = self.take_register(r);
        w.push(sym);
        let ghost ww = w@;
        let ghost mid = self.registers@;
        self.registers.insert(r, w);
        proof {
            lemma_word_views_insert(mid, r, w);
            assert(old(self)@.registers.remove(r).insert(r, ww) =~= old(self)@.registers.insert(r, ww));
        }
    }

    /// Removes and returns the first symbol of register `r`, if any; the
    /// register stays in the map only while it is non-empty.
    fn pop_register(&mut self, r: usize) -> (first: Option<Symbol>)
        requires
            old(self).wf(),
        ensures
            old(self).wf() ==> final(self).wf(),
            ({
                let w = reg(old(self)@.registers, r);
                &&& first == (if w.len() == 0 {
                    None::<Symbol>
                } else {
                    Some(w[0])
                })
                &&& final(self)@ == (MachineState {
                    registers: if w.len() == 0 {
                        old(self)@.registers
                    } else {
                        store(old(self)@.registers, r, w.drop_first())
                    },
                    ..old(self)@
                })
            }),
    {
        let mut w = self.take_register(r);
        if w.len() == 0 {
            proof {
                if old(self)@.registers.contains_key(r) {
                    assert(old(self)@.registers[r].len() > 0);
                }
                assert(old(self)@.registers.remove(r) =~= old(self)@.registers);
            }
            return None;
        }
        let first = w.remove(0);
        if w.len() > 0 {
            let ghost ww = w@;
            let ghost mid = self.registers@;
            self.registers.insert(r, w);
            proof {
                lemma_word_views_insert(mid, r, w);
                assert(old(self)@.registers.remove(r).insert(r, ww) =~= old(self)@.registers.insert(r, ww));
            }
        }
        assert(w@ =~= reg(old(self)@.registers, r).drop_first());
        Some(first)
    }

    /// How the step that leaves the program counter at `pc` ends.
    fn landing_of(&self) -> (r: StepResult)
        ensures
            r == landing(self@.pc, self@.program.len()),
    {
        let n = self.program.len();
        if self.pc == n {
            StepResult::Halted
        } else if self.pc > n {
            StepResult::StoppedImproperly
        } else {
            StepResult::Continue
        }
    }

    /// Executes a single step, returning whether to continue.
    pub fn step(&mut self) -> (r: StepResult)
        requires
            old(self).wf(),
            old(self)@.step_count < usize::MAX,
        ensures
            final(self).wf(),
            (final(self)@, r) == step_spec(old(self)@),
    {
        let n = self.program.len();
        if self.pc == n {
            return StepResult::Halted;
        }
        if self.pc > n {
            return StepResult::StoppedImproperly;
        }
        self.step_count = self.step_count + 1;
        match self.program[self.pc] {
            Instruction::AddOne(reg) => {
                self.append_symbol(reg, Symbol::One);
                self.pc = self.pc.saturating_add(1);
            },
            Instruction::AddHash(reg) => {
                self.append_symbol(reg, Symbol::Hash);
                self.pc = self.pc.saturating_add(1);
            },
            Instruction::Forward(offset) => {
                self.pc = self.pc.saturating_add(offset);
            },
            Instruction::Backward(offset) => {
                if offset > self.pc {
                    return StepResult::StoppedImproperly;
                }
                self.pc = self.pc - offset;
            },
            Instruction::Case(reg) => {
                match self.pop_register(reg) {
                    None => {
                        self.pc = self.pc.saturating_add(1);
                    },
                    Some(Symbol::One) => {
                        self.pc = self.pc.saturating_add(2);
                    },
                    Some(Symbol::Hash) => {
                        self.pc = self.pc.saturating_add(3);
                    },
                }
            },
        }
        self.landing_of()
    }

    /// Runs the machine until it halts, stops improperly, or reaches its step
    /// limit.
    pub fn run(&mut self) -> (r: RunResult)
        requires
            old(self).wf(),
        ensures
            final(self).wf(),
            (final(self)@, r) == run_spec(old(self)@),
    {
        let limit = match self.max_steps {
            Some(max) => max,
            None => usize::MAX,
        };
        loop
            invariant
                self.wf(),
                limit == step_limit(self@),
                run_spec(self@) == run_spec(old(self)@),
            decreases limit - self@.step_count,
        {
            if self.step_count >= limit {
                return RunResult::MaxStepsReached;
            }
            let ghost before = self@;
            proof {
                lemma_step_continue_counts(before);
            }
            match self.step() {
                StepResult::Continue => {},
                StepResult::Halted => return RunResult::Halted,
                StepResult::StoppedImproperly => return RunResult::StoppedImproperly,
            }
        }
    }
}

/// A machine that has halted stays halted: stepping it again changes
/// nothing and reports `Halted` again.
pub proof fn lemma_halted_stays_halted(s: MachineState)
    requires
        step_spec(s).1 == StepResult::Halted,
    ensures
        step_spec(step_spec(s).0) == (step_spec(s).0, StepResult::Halted),
{
}

/// Stepping keeps only non-empty registers in the map: a register that a
/// `Case` empties leaves it, and an empty register is never added.
pub proof fn lemma_step_keeps_registers_nonempty(s: MachineState)
    requires
        nonempty_only(s.registers),
    ensures
        nonempty_only(step_spec(s).0.registers),
{
}

/// Stepping never changes the program or the step limit, and executes at
/// most one instruction.
pub proof fn lemma_step_keeps_program(s: MachineState)
    ensures
        step_spec(s).0.program == s.program,
        step_spec(s).0.max_steps == s.max_steps,
        step_spec(s).0.step_count <= s.step_count + 1,
{
}

/// What running ends with: a halted machine has its program counter just
/// past the last instruction; a machine stopped at its limit has executed
/// that many steps; the program and the limit stay as they were, and no more
/// steps are executed than the limit allows: the count ends at most at the
/// larger of the limit and the count it started from.
pub proof fn lemma_run_outcome(s: MachineState)
    ensures
        ({
            let (t, r) = run_spec(s);
            &&& t.program == s.program
            &&& t.max_steps == s.max_steps
            &&& r == RunResult::Halted ==> t.pc == t.program.len()
            &&& r == RunResult::MaxStepsReached ==> t.step_count >= step_limit(t)
            &&& s.step_count <= step_limit(s) ==> t.step_count <= step_limit(s)
            &&& s.step_count > step_limit(s) ==> t == s && r == RunResult::MaxStepsReached
            &&& s.step_count <= t.step_count
        }),
    decreases step_limit(s) - s.step_count,
{
    if s.step_count < step_limit(s) {
        lemma_step_continue_counts(s);
        lemma_step_keeps_program(s);
        let (t, r) = step_spec(s);
        if r == StepResult::Continue {
            lemma_run_outcome(t);
        }
    }
}

} // verus!
