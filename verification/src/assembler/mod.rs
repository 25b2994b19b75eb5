//! 1# Assembler
//!
//! Compiles assembly language to 1# machine code.
//!
//! ## Assembly Syntax
//!
//! - `add 1 R1` - Append 1 to register
//! - `add # R1` - Append # to register
//! - `case R1` - Branch on first symbol of register
//! - `goto label` - Jump to label
//! - `halt` - Stop execution
//! - `label:` - Define a label
//! - `; comment` - Comment

pub mod addition;
pub mod behaviour;
pub mod subtraction;
pub mod macros;
pub mod templates;
pub mod macro_laws;
pub mod template_programs;

pub use macros::{expand_macros, reset_label_counter, LabelCounter};
use macros::{expand_text, expansion};

use vstd::prelude::*;

use crate::instruction::{encode_program, operand, push_program, Instruction};
use crate::parser::{lemma_parse_encoded_program, parse_source};
use crate::text::{
    append_chars, chars_of, clone_chars, cut_at, cut_chars, decimal, eq_chars, eq_str,
    lines, lowercase, lowercase_chars, parse_usize, parse_usize_chars, push_str, push_usize,
    split_lines, split_words, string_of, sub_chars, trim, trim_chars, words,
};


verus! {

/// Assembly instruction before label resolution.
#[derive(Debug)]
pub enum AsmInstruction {
    Add1(usize),
    AddHash(usize),
    Goto(Vec<char>),
    Case(usize),
    Label(Vec<char>),
}

/// An assembly instruction as a value.
pub enum AsmItem {
    Add1(usize),
    AddHash(usize),
    Goto(Seq<char>),
    Case(usize),
    Label(Seq<char>),
}

impl View for AsmInstruction {
    type V = AsmItem;

    open spec fn view(&self) -> AsmItem {
        match self {
            AsmInstruction::Add1(r) => AsmItem::Add1(*r),
            AsmInstruction::AddHash(r) => AsmItem::AddHash(*r),
            AsmInstruction::Goto(l) => AsmItem::Goto(l@),
            AsmInstruction::Case(r) => AsmItem::Case(*r),
            AsmInstruction::Label(l) => AsmItem::Label(l@),
        }
    }
}

/// The items of a sequence of assembly instructions.
pub open spec fn items(v: Seq<AsmInstruction>) -> Seq<AsmItem> {
    v.map_values(|a: AsmInstruction| a@)
}

/// The label that `halt` jumps to: the position after the last instruction.
pub open spec fn halt_label() -> Seq<char> {
    "__halt__"@
}

/// An error message for line `n`.
pub open spec fn line_error(n: nat, msg: Seq<char>) -> Seq<char> {
    "Line "@ + decimal(n) + ": "@ + msg
}

/// The register named by `s`: `R` or `r` followed by a number, after
/// trimming whitespace.
pub open spec fn register_of(s: Seq<char>) -> Result<usize, Seq<char>> {
    let t = trim(s);
    if t.len() > 0 && (t[0] == 'R' || t[0] == 'r') {
        match parse_usize(t.drop_first()) {
            Some(n) => Ok(n),
            None => Err("Invalid register number: "@ + t),
        }
    } else {
        Err("Expected register (R1, R2, ...), got: "@ + t)
    }
}

/// The assembly instruction on line number `n`, none for a blank or comment
/// line, or the error that the line holds.
pub open spec fn asm_line(n: nat, line: Seq<char>) -> Result<Option<AsmItem>, Seq<char>> {
    let code = trim(cut_at(line, ';'));
    if code.len() == 0 {
        Ok(None)
    } else if code.last() == ':' {
        let label = trim(code.drop_last());
        if label.len() == 0 {
            Err(line_error(n, "Empty label"@))
        } else {
            Ok(Some(AsmItem::Label(label)))
        }
    } else {
        let parts = words(code);
        if parts.len() == 0 {
            Ok(None)
        } else {
            let cmd = lowercase(parts[0]);
            if cmd == "add"@ {
                if parts.len() != 3 {
                    Err(line_error(n, "'add' expects 2 arguments: add <1|#> <register>"@))
                } else {
                    match register_of(parts[2]) {
                        Err(e) => Err(line_error(n, e)),
                        Ok(r) => if parts[1] == "1"@ {
                            Ok(Some(AsmItem::Add1(r)))
                        } else if parts[1] == "#"@ {
                            Ok(Some(AsmItem::AddHash(r)))
                        } else {
                            Err(line_error(n, "'add' expects '1' or '#', got: "@ + parts[1]))
                        },
                    }
                }
            } else if cmd == "goto"@ {
                if parts.len() != 2 {
                    Err(line_error(n, "'goto' expects 1 argument: goto <label>"@))
                } else {
                    Ok(Some(AsmItem::Goto(parts[1])))
                }
            } else if cmd == "case"@ {
                if parts.len() != 2 {
                    Err(line_error(n, "'case' expects 1 argument: case <register>"@))
                } else {
                    match register_of(parts[1]) {
                        Err(e) => Err(line_error(n, e)),
                        Ok(r) => Ok(Some(AsmItem::Case(r))),
                    }
                }
            } else if cmd == "halt"@ {
                Ok(Some(AsmItem::Goto(halt_label())))
            } else {
                Err(line_error(n, "Unknown instruction: "@ + parts[0]))
            }
        }
    }
}

/// The instructions of the first `k` lines, or the first error among them.
pub open spec fn assembly_upto(ls: Seq<Seq<char>>, k: nat) -> Result<Seq<AsmItem>, Seq<char>>
    decreases k,
{
    if k == 0 {
        Ok(Seq::empty())
    } else {
        match assembly_upto(ls, (k - 1) as nat) {
            Err(e) => Err(e),
            Ok(acc) => match asm_line(k, ls[k - 1]) {
                Err(e) => Err(e),
                Ok(None) => Ok(acc),
                Ok(Some(a)) => Ok(acc.push(a)),
            },
        }
    }
}

/// The assembly instructions of a source text, line by line.
pub open spec fn assembly_of(s: Seq<char>) -> Result<Seq<AsmItem>, Seq<char>> {
    assembly_upto(lines(s), lines(s).len())
}

/// The number of instructions, labels not counted, among the first `k`
/// items.
pub open spec fn position(prog: Seq<AsmItem>, k: nat) -> nat
    decreases k,
{
    if k == 0 {
        0
    } else {
        position(prog, (k - 1) as nat) + if prog[k - 1] is Label {
            0nat
        } else {
            1nat
        }
    }
}

/// The labels defined among the first `k` items, each with the position of
/// the instruction that follows it; an error when a label is defined twice.
pub open spec fn labels_upto(prog: Seq<AsmItem>, k: nat) -> Result<Map<Seq<char>, nat>, Seq<char>>
    decreases k,
{
    if k == 0 {
        Ok(Map::empty())
    } else {
        match labels_upto(prog, (k - 1) as nat) {
            Err(e) => Err(e),
            Ok(m) => match prog[k - 1] {
                AsmItem::Label(name) => if m.contains_key(name) {
                    Err("Duplicate label: "@ + name)
                } else {
                    Ok(m.insert(name, position(prog, (k - 1) as nat)))
                },
                _ => Ok(m),
            },
        }
    }
}

/// The label table of a program: its labels, and `__halt__` at the position
/// after its last instruction.
pub open spec fn label_table(prog: Seq<AsmItem>) -> Result<Map<Seq<char>, nat>, Seq<char>> {
    match labels_upto(prog, prog.len()) {
        Err(e) => Err(e),
        Ok(m) => Ok(m.insert(halt_label(), position(prog, prog.len()))),
    }
}

/// The jump from position `p` to position `target`.
pub open spec fn jump(label: Seq<char>, target: nat, p: nat) -> Result<Instruction, Seq<char>> {
    if target > p {
        Ok(Instruction::Forward((target - p) as usize))
    } else if target < p {
        Ok(Instruction::Backward((p - target) as usize))
    } else {
        Err("Cannot goto the same instruction position (label: "@ + label + ")"@)
    }
}

/// The instructions of the first `k` items with their labels resolved, or
/// the first error among them.
pub open spec fn resolve_upto(prog: Seq<AsmItem>, table: Map<Seq<char>, nat>, k: nat) -> Result<
    Seq<Instruction>,
    Seq<char>,
>
    decreases k,
{
    if k == 0 {
        Ok(Seq::empty())
    } else {
        match resolve_upto(prog, table, (k - 1) as nat) {
            Err(e) => Err(e),
            Ok(acc) => match prog[k - 1] {
                AsmItem::Label(_) => Ok(acc),
                AsmItem::Add1(r) => Ok(acc.push(Instruction::AddOne(r))),
                AsmItem::AddHash(r) => Ok(acc.push(Instruction::AddHash(r))),
                AsmItem::Case(r) => Ok(acc.push(Instruction::Case(r))),
                AsmItem::Goto(l) => if table.contains_key(l) {
                    match jump(l, table[l], acc.len()) {
                        Err(e) => Err(e),
                        Ok(i) => Ok(acc.push(i)),
                    }
                } else {
                    Err("Undefined label: "@ + l)
                },
            },
        }
    }
}

/// The program of a list of assembly instructions: labels dropped, each
/// `goto` turned into the jump to its label.
pub open spec fn resolved(prog: Seq<AsmItem>) -> Result<Seq<Instruction>, Seq<char>> {
    match label_table(prog) {
        Err(e) => Err(e),
        Ok(t) => resolve_upto(prog, t, prog.len()),
    }
}

/// The program of an assembly text whose macros are already expanded.
pub open spec fn assembled(s: Seq<char>) -> Result<Seq<Instruction>, Seq<char>> {
    match assembly_of(s) {
        Err(e) => Err(e),
        Ok(prog) => resolved(prog),
    }
}

/// Appends `"Line {n}: "` to `v`.
fn push_line_prefix(v: &mut Vec<char>, n: usize)
    ensures
        final(v)@ == old(v)@ + "Line "@ + decimal(n as nat) + ": "@,
{
    push_str(v, "Line ");
    push_usize(v, n);
    push_str(v, ": ");
    assert(v@ =~= old(v)@ + "Line "@ + decimal(n as nat) + ": "@);
}

/// The error `msg` on line `n`.
fn line_err(n: usize, msg: &str) -> (e: Vec<char>)
    ensures
        e@ == line_error(n as nat, msg@),
{
    let mut e: Vec<char> = Vec::new();
    push_line_prefix(&mut e, n);
    push_str(&mut e, msg);
    assert(e@ =~= line_error(n as nat, msg@));
    e
}

/// The error `msg` followed by `tail` on line `n`.
fn line_err_with(n: usize, msg: &str, tail: &Vec<char>) -> (e: Vec<char>)
    ensures
        e@ == line_error(n as nat, msg@ + tail@),
{
    let mut e: Vec<char> = Vec::new();
    push_line_prefix(&mut e, n);
    push_str(&mut e, msg);
    append_chars(&mut e, tail);
    assert(e@ =~= line_error(n as nat, msg@ + tail@));
    e
}

/// `msg` followed by `tail`.
fn message_with(msg: &str, tail: &Vec<char>) -> (e: Vec<char>)
    ensures
        e@ == msg@ + tail@,
{
    let mut e: Vec<char> = Vec::new();
    push_str(&mut e, msg);
    append_chars(&mut e, tail);
    e
}

/// Parses a register reference (R1, R2, etc.) and returns the register number.
fn parse_register(s: &Vec<char>) -> (r: Result<usize, Vec<char>>)
    ensures
        match r {
            Ok(n) => register_of(s@) == Ok::<usize, Seq<char>>(n),
            Err(e) => register_of(s@) == Err::<usize, Seq<char>>(e@),
        },
{
    let t = trim_chars(s);
    if t.len() > 0 && (t[0] == 'R' || t[0] == 'r') {
        let num = sub_chars(&t, 1, t.len());
        assert(num@ =~= t@.drop_first());
        match parse_usize_chars(&num) {
            Some(n) => Ok(n),
            None => Err(message_with("Invalid register number: ", &t)),
        }
    } else {
        Err(message_with("Expected register (R1, R2, ...), got: ", &t))
    }
}

/// Parses one line of assembly.
fn parse_asm_line(n: usize, line: &Vec<char>) -> (r: Result<Option<AsmInstruction>, Vec<char>>)
    ensures
        match r {
            Ok(None) => asm_line(n as nat, line@) == Ok::<Option<AsmItem>, Seq<char>>(None),
            Ok(Some(a)) => asm_line(n as nat, line@) == Ok::<Option<AsmItem>, Seq<char>>(
                Some(a@),
            ),
            Err(e) => asm_line(n as nat, line@) == Err::<Option<AsmItem>, Seq<char>>(e@),
        },
{
    let uncommented = cut_chars(line, ';');
    let code = trim_chars(&uncommented);
    if code.len() == 0 {
        return Ok(None);
    }
    if code[code.len() - 1] == ':' {
        let head = sub_chars(&code, 0, code.len() - 1);
        assert(head@ =~= code@.drop_last());
        let label = trim_chars(&head);
        if label.len() == 0 {
            return Err(line_err(n, "Empty label"));
        }
        return Ok(Some(AsmInstruction::Label(label)));
    }
    let parts = split_words(&code);
    if parts.len() == 0 {
        return Ok(None);
    }
    assert(parts@[0]@ == words(code@)[0]);
    let cmd = lowercase_chars(&parts[0]);
    if eq_str(&cmd, "add") {
        if parts.len() != 3 {
            return Err(line_err(n, "'add' expects 2 arguments: add <1|#> <register>"));
        }
        assert(parts@[2]@ == words(code@)[2]);
        assert(parts@[1]@ == words(code@)[1]);
        match parse_register(&parts[2]) {
            Err(e) => {
                let mut m: Vec<char> = Vec::new();
                push_line_prefix(&mut m, n);
                append_chars(&mut m, &e);
                assert(m@ =~= line_error(n as nat, e@));
                Err(m)
            },
            Ok(r) => {
                if eq_str(&parts[1], "1") {
                    Ok(Some(AsmInstruction::Add1(r)))
                } else if eq_str(&parts[1], "#") {
                    Ok(Some(AsmInstruction::AddHash(r)))
                } else {
                    Err(line_err_with(n, "'add' expects '1' or '#', got: ", &parts[1]))
                }
            },
        }
    } else if eq_str(&cmd, "goto") {
        if parts.len() != 2 {
            return Err(line_err(n, "'goto' expects 1 argument: goto <label>"));
        }
        assert(parts@[1]@ == words(code@)[1]);
        Ok(Some(AsmInstruction::Goto(clone_chars(&parts[1]))))
    } else if eq_str(&cmd, "case") {
        if parts.len() != 2 {
            return Err(line_err(n, "'case' expects 1 argument: case <register>"));
        }
        assert(parts@[1]@ == words(code@)[1]);
        match parse_register(&parts[1]) {
            Err(e) => {
                let mut m: Vec<char> = Vec::new();
                push_line_prefix(&mut m, n);
                append_chars(&mut m, &e);
                assert(m@ =~= line_error(n as nat, e@));
                Err(m)
            },
            Ok(r) => Ok(Some(AsmInstruction::Case(r))),
        }
    } else if eq_str(&cmd, "halt") {
        Ok(Some(AsmInstruction::Goto(chars_of("__halt__"))))
    } else {
        Err(line_err_with(n, "Unknown instruction: ", &parts[0]))
    }
}

/// Parses assembly source into a list of assembly instructions.
fn parse_assembly(source: &Vec<char>) -> (r: Result<Vec<AsmInstruction>, Vec<char>>)
    ensures
        match r {
            Ok(v) => assembly_of(source@) == Ok::<Seq<AsmItem>, Seq<char>>(items(v@)),
            Err(e) => assembly_of(source@) == Err::<Seq<AsmItem>, Seq<char>>(e@),
        },
{
    let ls = split_lines(source);
    let ghost sl = lines(source@);
    let mut out: Vec<AsmInstruction> = Vec::new();
    let mut i: usize = 0;
    assert(items(out@) =~= Seq::<AsmItem>::empty());
    while i < ls.len()
        invariant
            i <= ls@.len(),
            sl == crate::text::texts(ls@),
            sl == lines(source@),
            assembly_upto(sl, i as nat) == Ok::<Seq<AsmItem>, Seq<char>>(items(out@)),
        decreases ls@.len() - i,
    {
        assert(sl[i as int] == ls@[i as int]@);
        match parse_asm_line(i + 1, &ls[i]) {
            Err(e) => {
                proof {
                    lemma_assembly_error_stays(sl, (i + 1) as nat, e@);
                }
                return Err(e);
            },
            Ok(None) => {},
            Ok(Some(a)) => {
                let ghost before = items(out@);
                let ghost av = a@;
                out.push(a);
                assert(items(out@) =~= before.push(av));
            },
        }
        i = i + 1;
    }
    Ok(out)
}

proof fn lemma_assembly_error_stays(ls: Seq<Seq<char>>, k: nat, e: Seq<char>)
    requires
        k <= ls.len(),
        assembly_upto(ls, k) == Err::<Seq<AsmItem>, Seq<char>>(e),
    ensures
        assembly_upto(ls, ls.len()) == Err::<Seq<AsmItem>, Seq<char>>(e),
    decreases ls.len() - k,
{
    if k < ls.len() {
        lemma_assembly_error_stays(ls, k + 1, e);
    }
}

/// The label table held as a list: later entries win.
pub open spec fn table_of(l: Seq<(Vec<char>, usize)>) -> Map<Seq<char>, nat>
    decreases l.len(),
{
    if l.len() == 0 {
        Map::empty()
    } else {
        table_of(l.drop_last()).insert(l.last().0@, l.last().1 as nat)
    }
}

/// Looks a label up among the first `n` entries of the list.
fn lookup_label(l: &Vec<(Vec<char>, usize)>, n: usize, name: &Vec<char>) -> (r: Option<usize>)
    requires
        n <= l@.len(),
    ensures
        ({
            let t = table_of(l@.take(n as int));
            match r {
                Some(p) => t.contains_key(name@) && t[name@] == p as nat,
                None => !t.contains_key(name@),
            }
        }),
    decreases n,
{
    if n == 0 {
        return None;
    }
    assert(l@.take(n as int).drop_last() =~= l@.take(n - 1));
    assert(l@.take(n as int).last() == l@[n - 1]);
    if eq_chars(&l[n - 1].0, name) {
        Some(l[n - 1].1)
    } else {
        lookup_label(l, n - 1, name)
    }
}

/// Resolves label references to forward/backward jump offsets.
fn resolve_labels(prog: &Vec<AsmInstruction>) -> (r: Result<Vec<Instruction>, Vec<char>>)
    ensures
        match r {
            Ok(v) => resolved(items(prog@)) == Ok::<Seq<Instruction>, Seq<char>>(v@),
            Err(e) => resolved(items(prog@)) == Err::<Seq<Instruction>, Seq<char>>(e@),
        },
{
    let ghost it = items(prog@);
    let mut labels: Vec<(Vec<char>, usize)> = Vec::new();
    let mut count: usize = 0;
    let mut i: usize = 0;
    while i < prog.len()
        invariant
            i <= prog@.len(),
            it == items(prog@),
            count <= i,
            count == position(it, i as nat),
            labels_upto(it, i as nat) == Ok::<Map<Seq<char>, nat>, Seq<char>>(
                table_of(labels@),
            ),
        decreases prog@.len() - i,
    {
        assert(it[i as int] == prog@[i as int]@);
        match &prog[i] {
            AsmInstruction::Label(name) => {
                let n = labels.len();
                assert(labels@.take(n as int) =~= labels@);
                if lookup_label(&labels, n, name).is_some() {
                    let e = message_with("Duplicate label: ", name);
                    proof {
                        lemma_labels_error_stays(it, (i + 1) as nat, e@);
                    }
                    return Err(e);
                }
                let ghost before = labels@;
                labels.push((clone_chars(name), count));
                assert(labels@.drop_last() =~= before);
            },
            _ => {
                count = count + 1;
            },
        }
        i = i + 1;
    }
    let ghost user = table_of(labels@);
    let ghost before = labels@;
    labels.push((chars_of("__halt__"), count));
    assert(labels@.drop_last() =~= before);
    assert(table_of(labels@) == user.insert(halt_label(), count as nat));
    let ghost table = table_of(labels@);
    assert(label_table(it) == Ok::<Map<Seq<char>, nat>, Seq<char>>(table));
    let nl = labels.len();
    assert(labels@.take(nl as int) =~= labels@);
    let mut out: Vec<Instruction> = Vec::new();
    let mut i: usize = 0;
    while i < prog.len()
        invariant
            i <= prog@.len(),
            it == items(prog@),
            nl == labels@.len(),
            labels@.take(nl as int) == labels@,
            table == table_of(labels@),
            label_table(it) == Ok::<Map<Seq<char>, nat>, Seq<char>>(table),
            out@.len() <= i,
            resolve_upto(it, table, i as nat) == Ok::<Seq<Instruction>, Seq<char>>(out@),
        decreases prog@.len() - i,
    {
        assert(it[i as int] == prog@[i as int]@);
        let pos = out.len();
        match &prog[i] {
            AsmInstruction::Label(_) => {},
            AsmInstruction::Add1(r) => {
                out.push(Instruction::AddOne(*r));
            },
            AsmInstruction::AddHash(r) => {
                out.push(Instruction::AddHash(*r));
            },
            AsmInstruction::Case(r) => {
                out.push(Instruction::Case(*r));
            },
            AsmInstruction::Goto(label) => {
                match lookup_label(&labels, nl, label) {
                    None => {
                        let e = message_with("Undefined label: ", label);
                        proof {
                            lemma_resolve_error_stays(it, table, (i + 1) as nat, e@);
                        }
                        return Err(e);
                    },
                    Some(target) => {
                        if target > pos {
                            out.push(Instruction::Forward(target - pos));
                        } else if target < pos {
                            out.push(Instruction::Backward(pos - target));
                        } else {
                            let mut e: Vec<char> = Vec::new();
                            push_str(&mut e, "Cannot goto the same instruction position (label: ");
                            append_chars(&mut e, label);
                            push_str(&mut e, ")");
                            proof {
                                lemma_resolve_error_stays(it, table, (i + 1) as nat, e@);
                            }
                            return Err(e);
                        }
                    },
                }
            },
        }
        i = i + 1;
    }
    Ok(out)
}

proof fn lemma_labels_error_stays(prog: Seq<AsmItem>, k: nat, e: Seq<char>)
    requires
        k <= prog.len(),
        labels_upto(prog, k) == Err::<Map<Seq<char>, nat>, Seq<char>>(e),
    ensures
        labels_upto(prog, prog.len()) == Err::<Map<Seq<char>, nat>, Seq<char>>(e),
        label_table(prog) == Err::<Map<Seq<char>, nat>, Seq<char>>(e),
        resolved(prog) == Err::<Seq<Instruction>, Seq<char>>(e),
    decreases prog.len() - k,
{
    if k < prog.len() {
        lemma_labels_error_stays(prog, k + 1, e);
    }
}

proof fn lemma_resolve_error_stays(
    prog: Seq<AsmItem>,
    t: Map<Seq<char>, nat>,
    k: nat,
    e: Seq<char>,
)
    requires
        k <= prog.len(),
        resolve_upto(prog, t, k) == Err::<Seq<Instruction>, Seq<char>>(e),
    ensures
        resolve_upto(prog, t, prog.len()) == Err::<Seq<Instruction>, Seq<char>>(e),
    decreases prog.len() - k,
{
    if k < prog.len() {
        lemma_resolve_error_stays(prog, t, k + 1, e);
    }
}

/// Assembles text whose macros are already expanded: parses its
/// instructions and resolves its labels.
pub fn assemble(source: &str) -> (r: Result<Vec<Instruction>, String>)
    ensures
        match r {
            Ok(v) => assembled(source@) == Ok::<Seq<Instruction>, Seq<char>>(v@),
            Err(e) => assembled(source@) == Err::<Seq<Instruction>, Seq<char>>(e@),
        },
{
    let text = chars_of(source);
    match assemble_chars(&text) {
        Ok(v) => Ok(v),
        Err(e) => Err(string_of(&e)),
    }
}

/// Assembles text whose macros are already expanded.
fn assemble_chars(text: &Vec<char>) -> (r: Result<Vec<Instruction>, Vec<char>>)
    ensures
        match r {
            Ok(v) => assembled(text@) == Ok::<Seq<Instruction>, Seq<char>>(v@),
            Err(e) => assembled(text@) == Err::<Seq<Instruction>, Seq<char>>(e@),
        },
{
    let prog = parse_assembly(text)?;
    resolve_labels(&prog)
}

/// What `compile` gives for the assembly source `s`: its macros expanded
/// (label counter from zero), then its instructions parsed, its labels
/// resolved and the program written in 1#.
pub open spec fn compiled(s: Seq<char>) -> Result<Seq<char>, Seq<char>> {
    match expansion(s, 0) {
        Err(e) => Err(e),
        Ok((t, _)) => match assembled(t) {
            Err(e) => Err(e),
            Ok(p) => Ok(encode_program(p)),
        },
    }
}

/// What `compile` writes holds only `1` and `#`.
pub proof fn lemma_compiled_symbols(source: Seq<char>)
    requires
        compiled(source) is Ok,
    ensures
        forall|j: int|
            0 <= j < compiled(source)->Ok_0.len() ==> #[trigger] compiled(source)->Ok_0[j] == '1'
                || compiled(source)->Ok_0[j] == '#',
{
    let t = expansion(source, 0)->Ok_0.0;
    crate::instruction::lemma_encode_program_symbols(assembled(t)->Ok_0);
}

/// What `expand_only` gives for the assembly source `s`: its macros expanded
/// with the label counter from zero.
pub open spec fn expanded(s: Seq<char>) -> Result<Seq<char>, Seq<char>> {
    match expansion(s, 0) {
        Err(e) => Err(e),
        Ok((t, _)) => Ok(t),
    }
}

/// Compiles assembly source to 1# code.
pub fn compile(source: &str) -> (r: Result<String, String>)
    ensures
        match r {
            Ok(code) => compiled(source@) == Ok::<Seq<char>, Seq<char>>(code@),
            Err(e) => compiled(source@) == Err::<Seq<char>, Seq<char>>(e@),
        },
{
    let text = chars_of(source);
    let mut counter: usize = 0;
    let expanded = match expand_text(&text, &mut counter) {
        Ok(t) => t,
        Err(e) => return Err(string_of(&e)),
    };
    let program = match assemble_chars(&expanded) {
        Ok(p) => p,
        Err(e) => return Err(string_of(&e)),
    };
    let mut code: Vec<char> = Vec::new();
    push_program(&mut code, &program);
    assert(code@ =~= encode_program(program@));
    Ok(string_of(&code))
}

/// Expands macros only without compiling.
pub fn expand_only(source: &str) -> (r: Result<String, String>)
    ensures
        match r {
            Ok(t) => expanded(source@) == Ok::<Seq<char>, Seq<char>>(t@),
            Err(e) => expanded(source@) == Err::<Seq<char>, Seq<char>>(e@),
        },
{
    let mut counter = LabelCounter::new();
    reset_label_counter(&mut counter);
    expand_macros(source, &mut counter)
}

// ---------------------------------------------------------------------------
// What assembling keeps
// ---------------------------------------------------------------------------

/// Where a jump at position `pos` lands; none for an instruction that is not
/// a jump.
pub open spec fn jump_target(i: Instruction, pos: nat) -> Option<int> {
    match i {
        Instruction::Forward(d) => Some(pos + d),
        Instruction::Backward(d) => Some(pos - d),
        _ => None,
    }
}

/// Whether `instr` at position `pos` is what the item becomes: the same
/// register operation, or for a `goto` a jump that lands where its label
/// points in the table `t`.
pub open spec fn item_becomes(item: AsmItem, instr: Instruction, pos: nat, t: Map<Seq<char>, nat>) -> bool {
    match item {
        AsmItem::Add1(r) => instr == Instruction::AddOne(r),
        AsmItem::AddHash(r) => instr == Instruction::AddHash(r),
        AsmItem::Case(r) => instr == Instruction::Case(r),
        AsmItem::Goto(l) => t.contains_key(l) && jump_target(instr, pos) == Some(t[l] as int)
            && t[l] != pos,
        AsmItem::Label(_) => true,
    }
}

proof fn lemma_position_grows(prog: Seq<AsmItem>, j: nat, k: nat)
    requires
        j < k <= prog.len(),
    ensures
        position(prog, j) + (if prog[j as int] is Label {
            0nat
        } else {
            1nat
        }) <= position(prog, k),
        position(prog, k) <= k,
    decreases k,
{
    if j + 1 < k {
        lemma_position_grows(prog, j, (k - 1) as nat);
    }
    lemma_position_bounded(prog, k);
}

proof fn lemma_position_bounded(prog: Seq<AsmItem>, k: nat)
    requires
        k <= prog.len(),
    ensures
        position(prog, k) <= k,
    decreases k,
{
    if k > 0 {
        lemma_position_bounded(prog, (k - 1) as nat);
    }
}

#[verifier::spinoff_prover]
#[verifier::rlimit(40)]
proof fn lemma_resolve_upto_keeps(prog: Seq<AsmItem>, t: Map<Seq<char>, nat>, k: nat)
    requires
        k <= prog.len() <= usize::MAX,
        forall|l: Seq<char>| #[trigger] t.contains_key(l) ==> t[l] <= usize::MAX,
        resolve_upto(prog, t, k) is Ok,
    ensures
        ({
            let acc = resolve_upto(prog, t, k)->Ok_0;
            &&& acc.len() == position(prog, k)
            &&& forall|j: int|
                0 <= j < k && !(prog[j] is Label) ==> position(prog, j as nat) < acc.len()
                    && item_becomes(
                    #[trigger] prog[j],
                    acc[position(prog, j as nat) as int],
                    position(prog, j as nat),
                    t,
                )
        }),
    decreases k,
{
    if k > 0 {
        let k1 = (k - 1) as nat;
        lemma_resolve_upto_keeps(prog, t, k1);
        let prev = resolve_upto(prog, t, k1)->Ok_0;
        let acc = resolve_upto(prog, t, k)->Ok_0;
        assert(acc.len() >= prev.len());
        assert forall|j: int| 0 <= j < k && !(prog[j] is Label) implies position(prog, j as nat)
            < acc.len() && item_becomes(
            #[trigger] prog[j],
            acc[position(prog, j as nat) as int],
            position(prog, j as nat),
            t,
        ) by {
            if j < k1 {
                assert(acc[position(prog, j as nat) as int] == prev[position(prog, j as nat) as int]);
            } else {
                lemma_position_bounded(prog, k1);
                match prog[j] {
                    AsmItem::Goto(l) => {
                        assert(t.contains_key(l));
                    },
                    _ => {},
                }
            }
        }
    }
}

/// Assembling keeps every instruction in its place: the program has one
/// instruction per item that is not a label, item `j` becomes instruction
/// `position(prog, j)`, and each `goto` becomes a jump of at least one step
/// that lands on the position of its label.
pub proof fn lemma_resolved_program(prog: Seq<AsmItem>)
    requires
        resolved(prog) is Ok,
        prog.len() <= usize::MAX,
    ensures
        label_table(prog) is Ok,
        resolved(prog)->Ok_0.len() == position(prog, prog.len()),
        forall|j: int|
            0 <= j < prog.len() && !(prog[j] is Label) ==> position(prog, j as nat)
                < resolved(prog)->Ok_0.len() && item_becomes(
                #[trigger] prog[j],
                resolved(prog)->Ok_0[position(prog, j as nat) as int],
                position(prog, j as nat),
                label_table(prog)->Ok_0,
            ),
{
    let t = label_table(prog)->Ok_0;
    lemma_label_table_bounded(prog);
    lemma_resolve_upto_keeps(prog, t, prog.len());
}

proof fn lemma_labels_upto_bounded(prog: Seq<AsmItem>, k: nat)
    requires
        k <= prog.len(),
        labels_upto(prog, k) is Ok,
    ensures
        forall|l: Seq<char>|
            #[trigger] labels_upto(prog, k)->Ok_0.contains_key(l) ==> labels_upto(prog, k)->Ok_0[l]
                <= prog.len(),
    decreases k,
{
    if k > 0 {
        lemma_labels_upto_bounded(prog, (k - 1) as nat);
        lemma_position_bounded(prog, (k - 1) as nat);
    }
}

/// Every position in the label table of a program is at most its length.
proof fn lemma_label_table_bounded(prog: Seq<AsmItem>)
    requires
        label_table(prog) is Ok,
    ensures
        forall|l: Seq<char>|
            #[trigger] label_table(prog)->Ok_0.contains_key(l) ==> label_table(prog)->Ok_0[l]
                <= prog.len(),
{
    lemma_labels_upto_bounded(prog, prog.len());
    lemma_position_bounded(prog, prog.len());
}

/// Whether every register operand of the program is at least 1.
pub open spec fn registers_positive(p: Seq<Instruction>) -> bool {
    forall|i: int|
        0 <= i < p.len() ==> match #[trigger] p[i] {
            Instruction::AddOne(r) => r >= 1,
            Instruction::AddHash(r) => r >= 1,
            Instruction::Case(r) => r >= 1,
            _ => true,
        }
}

proof fn lemma_labels_upto_within(prog: Seq<AsmItem>, k: nat)
    requires
        k <= prog.len(),
        labels_upto(prog, k) is Ok,
    ensures
        forall|l: Seq<char>|
            #[trigger] labels_upto(prog, k)->Ok_0.contains_key(l) ==> labels_upto(prog, k)->Ok_0[l]
                <= position(prog, prog.len()),
    decreases k,
{
    if k > 0 {
        lemma_labels_upto_within(prog, (k - 1) as nat);
        if k - 1 < prog.len() {
            lemma_position_grows(prog, (k - 1) as nat, prog.len());
        }
    }
}

/// Every jump of an assembled program moves at least one step and stays
/// within the program: a `Forward(d)` at index `i` lands at most at the end
/// (`i + d <= len`), a `Backward(d)` at index `i` at the start or later
/// (`d <= i`).
pub proof fn lemma_resolved_jumps_in_range(prog: Seq<AsmItem>)
    requires
        resolved(prog) is Ok,
        prog.len() <= usize::MAX,
    ensures
        forall|i: int|
            0 <= i < resolved(prog)->Ok_0.len() ==> match #[trigger] resolved(prog)->Ok_0[i] {
                Instruction::Forward(d) => d >= 1 && i + d <= resolved(prog)->Ok_0.len(),
                Instruction::Backward(d) => 1 <= d <= i,
                _ => true,
            },
{
    let t = label_table(prog)->Ok_0;
    lemma_label_table_bounded(prog);
    lemma_labels_upto_within(prog, prog.len());
    lemma_resolve_upto_keeps(prog, t, prog.len());
    let b = position(prog, prog.len());
    assert forall|l: Seq<char>| #[trigger] t.contains_key(l) implies t[l] <= b by {
        if l != halt_label() {
            assert(labels_upto(prog, prog.len())->Ok_0.contains_key(l));
        }
    }
    lemma_jumps_move_upto(prog, t, prog.len(), b);
}

proof fn lemma_jumps_move_upto(prog: Seq<AsmItem>, t: Map<Seq<char>, nat>, k: nat, b: nat)
    requires
        k <= prog.len() <= usize::MAX,
        forall|l: Seq<char>| #[trigger] t.contains_key(l) ==> t[l] <= usize::MAX && t[l] <= b,
        resolve_upto(prog, t, k) is Ok,
    ensures
        forall|i: int|
            0 <= i < resolve_upto(prog, t, k)->Ok_0.len() ==> match #[trigger] resolve_upto(
                prog,
                t,
                k,
            )->Ok_0[i] {
                Instruction::Forward(d) => d >= 1 && i + d <= b,
                Instruction::Backward(d) => 1 <= d <= i,
                _ => true,
            },
    decreases k,
{
    if k > 0 {
        let k1 = (k - 1) as nat;
        lemma_jumps_move_upto(prog, t, k1, b);
        lemma_resolve_upto_keeps(prog, t, k1);
        lemma_position_bounded(prog, k1);
        let prev = resolve_upto(prog, t, k1)->Ok_0;
        let acc = resolve_upto(prog, t, k)->Ok_0;
        assert forall|i: int| 0 <= i < acc.len() implies match #[trigger] acc[i] {
            Instruction::Forward(d) => d >= 1 && i + d <= b,
            Instruction::Backward(d) => 1 <= d <= i,
            _ => true,
        } by {
            if i < prev.len() {
                assert(acc[i] == prev[i]);
            } else {
                match prog[k1 as int] {
                    AsmItem::Goto(l) => {
                        assert(t.contains_key(l));
                    },
                    _ => {},
                }
            }
        }
    }
}

/// Parsing what `compile` writes gives back the assembled program, for
/// every source whose program names no register 0 (register 0 is written as
/// a lone hash, which no 1# text can hold) and has at most `usize::MAX`
/// assembly items.
pub proof fn lemma_compiled_text_parses_back(source: Seq<char>)
    requires
        expansion(source, 0) is Ok,
        assembled(expansion(source, 0)->Ok_0.0) is Ok,
        assembly_of(expansion(source, 0)->Ok_0.0)->Ok_0.len() <= usize::MAX,
        registers_positive(assembled(expansion(source, 0)->Ok_0.0)->Ok_0),
    ensures
        compiled(source) == Ok::<Seq<char>, Seq<char>>(
            encode_program(assembled(expansion(source, 0)->Ok_0.0)->Ok_0),
        ),
        parse_source(compiled(source)->Ok_0) == Ok::<Seq<Instruction>, Seq<char>>(
            assembled(expansion(source, 0)->Ok_0.0)->Ok_0,
        ),
{
    let t = expansion(source, 0)->Ok_0.0;
    let prog = assembly_of(t)->Ok_0;
    let p = assembled(t)->Ok_0;
    lemma_resolved_jumps_in_range(prog);
    assert forall|j: int| 0 <= j < p.len() implies operand(#[trigger] p[j]) >= 1 by {
        match p[j] {
            Instruction::Forward(d) => {},
            Instruction::Backward(d) => {},
            _ => {},
        }
    }
    lemma_parse_encoded_program(p);
}

} // verus!
