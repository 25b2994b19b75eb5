//! The decisions of the two interactive loops: which command a line is, and
//! how the interpreter's register list and the assembler's code buffer
//! change. Reading lines, reading files and printing are left to the caller.
use vstd::prelude::*;

use crate::text::{
    chars_of, cut_at, eq_str, find_char, lines, parse_usize, parse_usize_chars, split_lines, starts_with,
    starts_with_str, string_of, sub_chars, texts, trim, trim_chars, lemma_trim_plain,
};

verus! {

// ---------------------------------------------------------------------------
// The interpreter's loop
// ---------------------------------------------------------------------------

/// What the interpreter's loop does with a line.
pub enum ReplCommand {
    /// An empty line: nothing.
    Nothing,
    /// `:quit` (or anything starting `:q`): leave the loop.
    Quit,
    /// `:help` (or anything starting `:h`): show the commands.
    Help,
    /// `:parse <program>`: parse and show the program.
    Parse(Seq<char>),
    /// `:run <program>`, or a line that is no command: run the program.
    Run(Seq<char>),
    /// `:set R<n> <word>`: register `n` was set to the word.
    SetRegister(usize, Seq<char>),
    /// `:set R<n> <word>` whose `n` is no number.
    InvalidRegister,
    /// `:set` without `R<n> <word>`.
    SetUsage,
    /// `:clear`: all registers were cleared.
    Cleared,
    /// `:regs`: show the registers.
    ShowRegisters,
    /// `:load <file>`: run the program in the file.
    Load(Seq<char>),
    /// Any other line that starts with `:`.
    Unknown,
}

/// What the interpreter's loop does with a line, as the caller receives it.
pub enum ReplAction {
    Nothing,
    Quit,
    Help,
    Parse(String),
    Run(String),
    SetRegister(usize, String),
    InvalidRegister,
    SetUsage,
    Cleared,
    ShowRegisters,
    Load(String),
    Unknown,
}

impl View for ReplAction {
    type V = ReplCommand;

    open spec fn view(&self) -> ReplCommand {
        match self {
            ReplAction::Nothing => ReplCommand::Nothing,
            ReplAction::Quit => ReplCommand::Quit,
            ReplAction::Help => ReplCommand::Help,
            ReplAction::Parse(p) => ReplCommand::Parse(p@),
            ReplAction::Run(p) => ReplCommand::Run(p@),
            ReplAction::SetRegister(n, w) => ReplCommand::SetRegister(*n, w@),
            ReplAction::InvalidRegister => ReplCommand::InvalidRegister,
            ReplAction::SetUsage => ReplCommand::SetUsage,
            ReplAction::Cleared => ReplCommand::Cleared,
            ReplAction::ShowRegisters => ReplCommand::ShowRegisters,
            ReplAction::Load(f) => ReplCommand::Load(f@),
            ReplAction::Unknown => ReplCommand::Unknown,
        }
    }
}

/// The register list with the texts of its words.
pub open spec fn entries(v: Seq<(usize, String)>) -> Seq<(usize, Seq<char>)> {
    v.map_values(|e: (usize, String)| (e.0, e.1@))
}

/// `s` without its entries for register `n`, the others in their order.
pub open spec fn without_key(s: Seq<(usize, Seq<char>)>, n: usize) -> Seq<(usize, Seq<char>)>
    decreases s.len(),
{
    if s.len() == 0 {
        s
    } else {
        let r = without_key(s.drop_last(), n);
        if s.last().0 == n {
            r
        } else {
            r.push(s.last())
        }
    }
}

/// The register list after register `n` is set to `w`: the old entry for
/// `n` goes, and a new one is added at the end when `w` is not empty.
pub open spec fn set_entry(s: Seq<(usize, Seq<char>)>, n: usize, w: Seq<char>) -> Seq<
    (usize, Seq<char>),
> {
    without_key(s, n) + if w.len() > 0 {
        seq![(n, w)]
    } else {
        Seq::empty()
    }
}

/// `:set` with `rest` after `:set `: `R`, a number, a space and a word.
pub open spec fn set_command(s: Seq<(usize, Seq<char>)>, rest: Seq<char>) -> (
    Seq<(usize, Seq<char>)>,
    ReplCommand,
) {
    if rest.len() > 0 && rest[0] == 'R' {
        let r = rest.skip(1);
        let i = cut_at(r, ' ').len();
        if i < r.len() {
            match parse_usize(r.take(i as int)) {
                Some(n) => (set_entry(s, n, r.skip(i + 1int)), ReplCommand::SetRegister(n, r.skip(i + 1int))),
                None => (s, ReplCommand::InvalidRegister),
            }
        } else {
            (s, ReplCommand::SetUsage)
        }
    } else {
        (s, ReplCommand::SetUsage)
    }
}

/// The register list afterwards, and what the interpreter's loop does, for
/// a line read with the register list `s`. The line is trimmed first.
pub open spec fn repl_step_spec(s: Seq<(usize, Seq<char>)>, line: Seq<char>) -> (
    Seq<(usize, Seq<char>)>,
    ReplCommand,
) {
    let t = trim(line);
    if t.len() == 0 {
        (s, ReplCommand::Nothing)
    } else if starts_with(t, ":q"@) {
        (s, ReplCommand::Quit)
    } else if starts_with(t, ":h"@) {
        (s, ReplCommand::Help)
    } else if starts_with(t, ":parse "@) {
        (s, ReplCommand::Parse(t.skip(7)))
    } else if starts_with(t, ":run "@) {
        (s, ReplCommand::Run(t.skip(5)))
    } else if starts_with(t, ":set "@) {
        set_command(s, t.skip(5))
    } else if starts_with(t, ":clear"@) {
        (Seq::empty(), ReplCommand::Cleared)
    } else if starts_with(t, ":regs"@) {
        (s, ReplCommand::ShowRegisters)
    } else if starts_with(t, ":load "@) {
        (s, ReplCommand::Load(t.skip(6)))
    } else if starts_with(t, ":"@) {
        (s, ReplCommand::Unknown)
    } else {
        (s, ReplCommand::Run(t))
    }
}

fn copy_string(s: &String) -> (r: String)
    ensures
        r@ == s@,
{
    let v = chars_of(s.as_str());
    string_of(&v)
}

/// Removes the entries for register `n`, keeping the others in order.
fn remove_key(regs: &mut Vec<(usize, String)>, n: usize)
    ensures
        entries(final(regs)@) == without_key(entries(old(regs)@), n),
{
    let mut out: Vec<(usize, String)> = Vec::new();
    let mut i: usize = 0;
    while i < regs.len()
        invariant
            i <= regs@.len(),
            regs@ == old(regs)@,
            entries(out@) == without_key(entries(regs@).take(i as int), n),
        decreases regs@.len() - i,
    {
        let ghost before = entries(out@);
        assert(entries(regs@).take(i + 1).drop_last() =~= entries(regs@).take(i as int));
        if regs[i].0 != n {
            let w = copy_string(&regs[i].1);
            out.push((regs[i].0, w));
            assert(entries(out@) =~= before.push(entries(regs@)[i as int]));
        }
        i = i + 1;
    }
    assert(entries(regs@).take(regs@.len() as int) =~= entries(regs@));
    *regs = out;
}

/// Decides what the interpreter's loop does with a line read while the
/// register list is `regs`, and changes the list for `:set` and `:clear`.
pub fn interpreter_repl_step(regs: &mut Vec<(usize, String)>, line: &str) -> (a: ReplAction)
    ensures
        (entries(final(regs)@), a@) == repl_step_spec(entries(old(regs)@), line@),
{
    let lv = chars_of(line);
    let t = trim_chars(&lv);
    proof {
        reveal_strlit(":q");
        reveal_strlit(":h");
        reveal_strlit(":parse ");
        reveal_strlit(":run ");
        reveal_strlit(":set ");
        reveal_strlit(":load ");
    }
    if t.len() == 0 {
        return ReplAction::Nothing;
    }
    if starts_with_str(&t, ":q") {
        return ReplAction::Quit;
    }
    if starts_with_str(&t, ":h") {
        return ReplAction::Help;
    }
    if starts_with_str(&t, ":parse ") {
        return ReplAction::Parse(string_of(&sub_chars(&t, 7, t.len())));
    }
    if starts_with_str(&t, ":run ") {
        return ReplAction::Run(string_of(&sub_chars(&t, 5, t.len())));
    }
    if starts_with_str(&t, ":set ") {
        let rest = sub_chars(&t, 5, t.len());
        assert(rest@ =~= t@.skip(5));
        if rest.len() > 0 && rest[0] == 'R' {
            let r = sub_chars(&rest, 1, rest.len());
            assert(r@ =~= rest@.skip(1));
            let i = find_char(&r, ' ');
            if i < r.len() {
                let num = sub_chars(&r, 0, i);
                assert(num@ =~= r@.take(i as int));
                match parse_usize_chars(&num) {
                    Some(n) => {
                        let word = sub_chars(&r, i + 1, r.len());
                        assert(word@ =~= r@.skip(i + 1));
                        remove_key(regs, n);
                        if word.len() > 0 {
                            let ghost before = entries(regs@);
                            regs.push((n, string_of(&word)));
                            assert(entries(regs@) =~= before + seq![(n, word@)]);
                        } else {
                            assert(entries(regs@) =~= entries(regs@) + Seq::<(usize, Seq<char>)>::empty());
                        }
                        return ReplAction::SetRegister(n, string_of(&word));
                    },
                    None => {
                        return ReplAction::InvalidRegister;
                    },
                }
            } else {
                return ReplAction::SetUsage;
            }
        } else {
            return ReplAction::SetUsage;
        }
    }
    if starts_with_str(&t, ":clear") {
        regs.clear();
        assert(entries(regs@) =~= Seq::<(usize, Seq<char>)>::empty());
        return ReplAction::Cleared;
    }
    if starts_with_str(&t, ":regs") {
        return ReplAction::ShowRegisters;
    }
    if starts_with_str(&t, ":load ") {
        return ReplAction::Load(string_of(&sub_chars(&t, 6, t.len())));
    }
    if starts_with_str(&t, ":") {
        return ReplAction::Unknown;
    }
    ReplAction::Run(string_of(&t))
}

/// Whether no register occurs twice in `s`.
pub open spec fn distinct_keys(s: Seq<(usize, Seq<char>)>) -> bool {
    forall|i: int, j: int| 0 <= i < j < s.len() ==> s[i].0 != s[j].0
}

proof fn lemma_without_key(s: Seq<(usize, Seq<char>)>, n: usize)
    ensures
        forall|i: int| 0 <= i < without_key(s, n).len() ==> #[trigger] without_key(s, n)[i].0 != n
            && s.contains(without_key(s, n)[i]),
        distinct_keys(s) ==> distinct_keys(without_key(s, n)),
    decreases s.len(),
{
    if s.len() > 0 {
        lemma_without_key(s.drop_last(), n);
        let r = without_key(s.drop_last(), n);
        assert forall|i: int| 0 <= i < without_key(s, n).len() implies #[trigger] without_key(s, n)[i].0
            != n && s.contains(without_key(s, n)[i]) by {
            if i < r.len() {
                assert(without_key(s, n)[i] == r[i]);
                assert(r[i].0 != n);
                assert(s.drop_last().contains(r[i]));
                let k = choose|k: int| 0 <= k < s.drop_last().len() && s.drop_last()[k] == r[i];
                assert(s[k] == r[i]);
            } else {
                assert(s[s.len() - 1] == s.last());
            }
        }
        if distinct_keys(s) {
            assert(distinct_keys(s.drop_last()));
            assert forall|i: int, j: int| 0 <= i < j < without_key(s, n).len() implies without_key(s, n)[i].0
                != without_key(s, n)[j].0 by {
                if j == r.len() && s.last().0 != n {
                    assert(r[i].0 != n);
                    assert(s.drop_last().contains(r[i]));
                    let k = choose|k: int| 0 <= k < s.drop_last().len() && s.drop_last()[k] == r[i];
                    assert(s[k] == r[i]);
                    assert(s[s.len() - 1] == s.last());
                } else {
                    assert(without_key(s, n)[i] == r[i]);
                    assert(without_key(s, n)[j] == r[j]);
                }
            }
        }
    }
}

/// Setting a register keeps the register list free of repeats: each
/// register occurs at most once.
pub proof fn lemma_set_entry_distinct(s: Seq<(usize, Seq<char>)>, n: usize, w: Seq<char>)
    requires
        distinct_keys(s),
    ensures
        distinct_keys(set_entry(s, n, w)),
{
    lemma_without_key(s, n);
    let r = without_key(s, n);
    if w.len() > 0 {
        assert forall|i: int, j: int| 0 <= i < j < set_entry(s, n, w).len() implies set_entry(s, n, w)[i].0
            != set_entry(s, n, w)[j].0 by {
            assert(set_entry(s, n, w)[i] == r[i]);
            if j < r.len() {
                assert(set_entry(s, n, w)[j] == r[j]);
            }
        }
    } else {
        assert(set_entry(s, n, w) =~= r);
    }
}

/// Whether register `n` has an entry in `v`.
pub open spec fn has_register(v: Seq<(usize, String)>, n: usize) -> bool {
    exists|i: int| 0 <= i < v.len() && v[i].0 == n
}

/// The register list ordered by register number, for showing it: each entry
/// of the result is an entry of `regs`, the numbers increase strictly, and
/// every register of `regs` is in the result.
pub fn registers_by_number(regs: &Vec<(usize, String)>) -> (r: Vec<(usize, String)>)
    ensures
        forall|i: int, j: int| 0 <= i < j < r@.len() ==> r@[i].0 < r@[j].0,
        forall|i: int| 0 <= i < r@.len() ==> entries(regs@).contains(#[trigger] entries(r@)[i]),
        forall|j: int| 0 <= j < regs@.len() ==> has_register(r@, #[trigger] regs@[j].0),
{
    let mut out: Vec<(usize, String)> = Vec::new();
    let mut last: Option<usize> = None;
    loop
        invariant
            forall|i: int, j: int| 0 <= i < j < out@.len() ==> out@[i].0 < out@[j].0,
            forall|i: int| 0 <= i < out@.len() ==> entries(regs@).contains(#[trigger] entries(out@)[i]),
            last is None <==> out@.len() == 0,
            last matches Some(l) ==> out@[out@.len() - 1].0 == l,
            forall|j: int|
                #![trigger regs@[j]]
                0 <= j < regs@.len() && (last matches Some(l) && regs@[j].0 <= l) ==> exists|i: int|
                    0 <= i < out@.len() && #[trigger] out@[i].0 == regs@[j].0,
        decreases
            match last {
                None => usize::MAX as int + 1,
                Some(l) => usize::MAX - l,
            },
    {
        let mut best: Option<usize> = None;
        let mut i: usize = 0;
        while i < regs.len()
            invariant
                i <= regs@.len(),
                best matches Some(b) ==> b < regs@.len() && (last matches Some(l) ==> regs@[b as int].0 > l),
                forall|j: int|
                    0 <= j < i && (last matches Some(l) ==> regs@[j].0 > l) ==> (best matches Some(b)
                        && regs@[b as int].0 <= #[trigger] regs@[j].0),
            decreases regs@.len() - i,
        {
            let k = regs[i].0;
            let above = match last {
                None => true,
                Some(l) => k > l,
            };
            if above {
                match best {
                    None => {
                        best = Some(i);
                    },
                    Some(b) => {
                        if k < regs[b].0 {
                            best = Some(i);
                        }
                    },
                }
            }
            i = i + 1;
        }
        match best {
            None => {
                assert forall|j: int| #![trigger regs@[j]] 0 <= j < regs@.len() implies exists|i: int|
                    0 <= i < out@.len() && #[trigger] out@[i].0 == regs@[j].0 by {
                    if !(last matches Some(l) && regs@[j].0 <= l) {
                        assert(best is Some);
                    }
                }
                assert forall|j: int| 0 <= j < regs@.len() implies has_register(out@, #[trigger] regs@[j].0) by {
                    if !(last matches Some(l) && regs@[j].0 <= l) {
                        assert(best is Some);
                    }
                }
                return out;
            },
            Some(b) => {
                let k = regs[b].0;
                let w = copy_string(&regs[b].1);
                let ghost prev = out@;
                out.push((k, w));
                proof {
                    assert(entries(regs@)[b as int] == entries(out@)[prev.len() as int]);
                    assert forall|i: int| 0 <= i < out@.len() implies entries(regs@).contains(
                        #[trigger] entries(out@)[i],
                    ) by {
                        if i < prev.len() {
                            assert(entries(out@)[i] == entries(prev)[i]);
                        }
                    }
                    assert forall|j: int|
                        #![trigger regs@[j]]
                        0 <= j < regs@.len() && regs@[j].0 <= k implies exists|i: int|
                        0 <= i < out@.len() && #[trigger] out@[i].0 == regs@[j].0 by {
                        if regs@[j].0 == k {
                            assert(out@[prev.len() as int].0 == regs@[j].0);
                        } else if last matches Some(l) && regs@[j].0 <= l {
                            let i0 = choose|i: int| 0 <= i < prev.len() && #[trigger] prev[i].0 == regs@[j].0;
                            assert(out@[i0].0 == regs@[j].0);
                        } else {
                            assert(regs@[b as int].0 <= regs@[j].0);
                        }
                    }
                }
                last = Some(k);
            },
        }
    }
}

// ---------------------------------------------------------------------------
// The assembler's loop
// ---------------------------------------------------------------------------

/// What the assembler's loop does with a line.
pub enum AsmCommand {
    /// `.quit` or `.q`: leave the loop.
    Quit,
    /// `.compile` or `.c`: compile the buffer.
    Compile,
    /// `.expand` or `.e`: expand the buffer's macros.
    Expand,
    /// `.clear`: the buffer was emptied.
    Cleared,
    /// `.show`: show the buffer, given as its lines.
    Show(Seq<Seq<char>>),
    /// `.help` or `.h`: show the usage.
    Help,
    /// Any other line: it was appended to the buffer as read.
    Appended,
}

/// What the assembler's loop does with a line, as the caller receives it.
pub enum AsmReplAction {
    Quit,
    Compile,
    Expand,
    Cleared,
    Show(Vec<String>),
    Help,
    Appended,
}

/// The texts of the given strings.
pub open spec fn string_texts(v: Seq<String>) -> Seq<Seq<char>> {
    v.map_values(|s: String| s@)
}

impl View for AsmReplAction {
    type V = AsmCommand;

    open spec fn view(&self) -> AsmCommand {
        match self {
            AsmReplAction::Quit => AsmCommand::Quit,
            AsmReplAction::Compile => AsmCommand::Compile,
            AsmReplAction::Expand => AsmCommand::Expand,
            AsmReplAction::Cleared => AsmCommand::Cleared,
            AsmReplAction::Show(ls) => AsmCommand::Show(string_texts(ls@)),
            AsmReplAction::Help => AsmCommand::Help,
            AsmReplAction::Appended => AsmCommand::Appended,
        }
    }
}

/// The buffer afterwards, and what the assembler's loop does, for a line
/// read with the buffer `buffer`. The command words are matched on the
/// trimmed line; any other line is appended as read.
pub open spec fn asm_repl_step_spec(buffer: Seq<char>, line: Seq<char>) -> (Seq<char>, AsmCommand) {
    let t = trim(line);
    if t == ".quit"@ || t == ".q"@ {
        (buffer, AsmCommand::Quit)
    } else if t == ".compile"@ || t == ".c"@ {
        (buffer, AsmCommand::Compile)
    } else if t == ".expand"@ || t == ".e"@ {
        (buffer, AsmCommand::Expand)
    } else if t == ".clear"@ {
        (Seq::empty(), AsmCommand::Cleared)
    } else if t == ".show"@ {
        (buffer, AsmCommand::Show(lines(buffer)))
    } else if t == ".help"@ || t == ".h"@ {
        (buffer, AsmCommand::Help)
    } else {
        (buffer + line, AsmCommand::Appended)
    }
}

/// Decides what the assembler's loop does with a line read while the code
/// buffer is `buffer`, and changes the buffer for `.clear` and for lines of
/// code.
pub fn assembler_repl_step(buffer: &mut String, line: &str) -> (a: AsmReplAction)
    ensures
        (final(buffer)@, a@) == asm_repl_step_spec(old(buffer)@, line@),
{
    let lv = chars_of(line);
    let t = trim_chars(&lv);
    if eq_str(&t, ".quit") || eq_str(&t, ".q") {
        return AsmReplAction::Quit;
    }
    if eq_str(&t, ".compile") || eq_str(&t, ".c") {
        return AsmReplAction::Compile;
    }
    if eq_str(&t, ".expand") || eq_str(&t, ".e") {
        return AsmReplAction::Expand;
    }
    if eq_str(&t, ".clear") {
        *buffer = String::new();
        return AsmReplAction::Cleared;
    }
    if eq_str(&t, ".show") {
        let bv = chars_of(buffer.as_str());
        let ls = split_lines(&bv);
        let mut out: Vec<String> = Vec::new();
        let mut i: usize = 0;
        while i < ls.len()
            invariant
                i <= ls@.len(),
                string_texts(out@) =~= texts(ls@).take(i as int),
            decreases ls@.len() - i,
        {
            let ghost before = string_texts(out@);
            let st = string_of(&ls[i]);
            out.push(st);
            assert(string_texts(out@) =~= before.push(ls@[i as int]@));
            assert(texts(ls@).take(i + 1) =~= texts(ls@).take(i as int).push(ls@[i as int]@));
            i = i + 1;
        }
        assert(texts(ls@).take(ls@.len() as int) =~= texts(ls@));
        return AsmReplAction::Show(out);
    }
    if eq_str(&t, ".help") || eq_str(&t, ".h") {
        return AsmReplAction::Help;
    }
    let mut bv = chars_of(buffer.as_str());
    let mut k: usize = 0;
    while k < lv.len()
        invariant
            k <= lv@.len(),
            bv@ == old(buffer)@ + lv@.take(k as int),
        decreases lv@.len() - k,
    {
        bv.push(lv[k]);
        k = k + 1;
        assert(bv@ =~= old(buffer)@ + lv@.take(k as int));
    }
    assert(lv@.take(lv@.len() as int) =~= lv@);
    *buffer = string_of(&bv);
    AsmReplAction::Appended
}

/// In the assembler's loop the long and the short form of a command are the
/// same command, whatever the buffer holds and whatever whitespace surrounds
/// the command: `.compile` and `.c` compile, `.expand` and `.e` expand,
/// `.quit` and `.q` quit, `.help` and `.h` show the usage; none of them
/// changes the buffer. `.clear` empties the buffer, `.show` shows its lines,
/// and every other line is added to the buffer as it was read.
pub proof fn lemma_asm_command_forms(b: Seq<char>, line: Seq<char>)
    ensures
        trim(line) == ".compile"@ || trim(line) == ".c"@ ==> asm_repl_step_spec(b, line) == (
            b,
            AsmCommand::Compile,
        ),
        trim(line) == ".expand"@ || trim(line) == ".e"@ ==> asm_repl_step_spec(b, line) == (
            b,
            AsmCommand::Expand,
        ),
        trim(line) == ".quit"@ || trim(line) == ".q"@ ==> asm_repl_step_spec(b, line) == (
            b,
            AsmCommand::Quit,
        ),
        trim(line) == ".help"@ || trim(line) == ".h"@ ==> asm_repl_step_spec(b, line) == (
            b,
            AsmCommand::Help,
        ),
        trim(line) == ".clear"@ ==> asm_repl_step_spec(b, line) == (
            Seq::<char>::empty(),
            AsmCommand::Cleared,
        ),
        trim(line) == ".show"@ ==> asm_repl_step_spec(b, line) == (
            b,
            AsmCommand::Show(lines(b)),
        ),
        !seq![".quit"@, ".q"@, ".compile"@, ".c"@, ".expand"@, ".e"@, ".clear"@, ".show"@, ".help"@, ".h"@].contains(
            trim(line),
        ) ==> asm_repl_step_spec(b, line) == (b + line, AsmCommand::Appended),
        asm_repl_step_spec(b, ".compile"@) == asm_repl_step_spec(b, ".c"@),
        asm_repl_step_spec(b, ".expand"@) == asm_repl_step_spec(b, ".e"@),
        asm_repl_step_spec(b, ".quit"@) == asm_repl_step_spec(b, ".q"@),
        asm_repl_step_spec(b, ".help"@) == asm_repl_step_spec(b, ".h"@),
{
    reveal_strlit(".quit");
    reveal_strlit(".q");
    reveal_strlit(".compile");
    reveal_strlit(".c");
    reveal_strlit(".expand");
    reveal_strlit(".e");
    reveal_strlit(".clear");
    reveal_strlit(".show");
    reveal_strlit(".help");
    reveal_strlit(".h");
    let ws = seq![".quit"@, ".q"@, ".compile"@, ".c"@, ".expand"@, ".e"@, ".clear"@, ".show"@, ".help"@, ".h"@];
    assert forall|w: Seq<char>| #[trigger] ws.contains(w) implies trim(w) == w by {
        lemma_trim_plain(w);
    }
    assert(ws[0] == ".quit"@ && ws[1] == ".q"@ && ws[2] == ".compile"@ && ws[3] == ".c"@);
    assert(ws[4] == ".expand"@ && ws[5] == ".e"@ && ws[8] == ".help"@ && ws[9] == ".h"@);
    assert(ws.contains(ws[0]) && ws.contains(ws[1]) && ws.contains(ws[2]) && ws.contains(ws[3]));
    assert(ws.contains(ws[4]) && ws.contains(ws[5]) && ws.contains(ws[8]) && ws.contains(ws[9]));
    assert(".compile"@ != ".quit"@ && ".compile"@ != ".q"@);
    assert(".c"@ != ".quit"@ && ".c"@ != ".q"@);
    assert(".expand"@ != ".quit"@ && ".expand"@ != ".q"@ && ".expand"@ != ".compile"@ && ".expand"@ != ".c"@);
    assert(".e"@ != ".quit"@ && ".e"@ != ".q"@ && ".e"@ != ".compile"@ && ".e"@ != ".c"@);
    assert(".help"@ != ".quit"@ && ".help"@ != ".q"@ && ".help"@ != ".compile"@ && ".help"@ != ".c"@);
    assert(".help"@ != ".expand"@ && ".help"@ != ".e"@ && ".help"@ != ".clear"@ && ".help"@ != ".show"@);
    assert(".h"@ != ".quit"@ && ".h"@ != ".q"@ && ".h"@ != ".compile"@ && ".h"@ != ".c"@);
    assert(".h"@ != ".expand"@ && ".h"@ != ".e"@ && ".h"@ != ".clear"@ && ".h"@ != ".show"@);
    assert(".clear"@ != ".quit"@ && ".clear"@ != ".q"@ && ".clear"@ != ".compile"@ && ".clear"@ != ".c"@);
    assert(".clear"@ != ".expand"@ && ".clear"@ != ".e"@);
    assert(".show"@ != ".quit"@ && ".show"@ != ".q"@ && ".show"@ != ".compile"@ && ".show"@ != ".c"@);
    assert(".show"@ != ".expand"@ && ".show"@ != ".e"@ && ".show"@ != ".clear"@);
    let t = trim(line);
    if !ws.contains(t) {
        assert(t != ws[0] && t != ws[1] && t != ws[2] && t != ws[3] && t != ws[4]);
        assert(t != ws[5] && t != ws[6] && t != ws[7] && t != ws[8] && t != ws[9]);
    }
}

} // verus!
