//! What the templates of some built-in macros assemble to.
//!
//! A built-in macro call expands to its template with the call's arguments
//! and a made label put in. The lemmas here follow those lines through the
//! assembler: each line is read as one assembly item, the labels are
//! resolved, and the result is the program whose run `behaviour.rs`
//! describes. The command words of the lines (`case`, `goto`, `add`) are
//! recognised through std's lowercasing, which the library only names; the
//! lemmas take as premises that it leaves these lowercase ASCII words as they
//! are.
use vstd::prelude::*;

use super::behaviour::{
    decrement_steps, decremented, increment_steps, incremented, lemma_clear_empties,
    lemma_copy_appends, lemma_decrement_subtracts_one, lemma_increment_adds_one,
    lemma_move_appends, lemma_pop_drops_first, lemma_shift_left_prepends,
    clear_program, copy_program, decrement_program, increment_program, move_program, pop_program,
    shift_left_program,
};
use super::macros::{builtin_expansion, instantiate, label_text, next_label, placeholder, Expansion};
use super::templates::{
    builtin, SHIFT_RIGHT_BODY, SWAP_BODY, CLEAR_BODY, COPY_BODY, DECREMENT_BODY, INCREMENT_BODY, MOVE_BODY, POP_BODY,
    SHIFT_LEFT_BODY,
};
use super::{asm_line, assembled, assembly_of, assembly_upto, halt_label, label_table, labels_upto,
    position, register_of, resolve_upto, resolved, AsmItem};
use crate::instruction::Instruction;
use crate::machine::{nonempty_only, reg, run_spec, step_limit, store, MachineState, RunResult};
use crate::types::{value, Symbol};
use crate::text::{
    decimal, is_digit, is_ws, join, lemma_decimal_value, lemma_lines_join, lemma_trim_cut_plain,
    ascii_lower, chars_of, cut_at, eq_str, is_ascii_text, lemma_words_join, lines, lowercase,
    lowercase_chars, plain_lines, plain_word, trim, words,
};

verus! {

// ---------------------------------------------------------------------------
// Words of assembly lines
// ---------------------------------------------------------------------------

/// A character that a made label consists of: an ASCII letter, digit or `_`.
pub open spec fn label_char(c: char) -> bool {
    c == '_' || ('a' <= c <= 'z') || ('A' <= c <= 'Z') || ('0' <= c <= '9')
}

/// Whether `w` can stand as one word of an assembly line: non-empty, with no
/// whitespace and no `;`, and not ending with `:`.
pub open spec fn asm_word(w: Seq<char>) -> bool {
    &&& w.len() > 0
    &&& forall|j: int| 0 <= j < w.len() ==> !is_ws(#[trigger] w[j]) && w[j] != ';'
    &&& w.last() != ':'
}

/// Whether the lowercasing that the assembler applies to command words
/// leaves the words `case`, `goto` and `add` as they are.
pub open spec fn commands_kept() -> bool {
    &&& lowercase("case"@) == "case"@
    &&& lowercase("goto"@) == "goto"@
    &&& lowercase("add"@) == "add"@
}

/// Whether lowercasing keeps the command words `case`, `goto` and `add`;
/// by what std documents for ASCII text it always does, so every law below
/// that takes `commands_kept()` as a premise holds once this has run.
pub fn lowercase_keeps_commands() -> (b: bool)
    ensures
        b == commands_kept(),
        b,
{
    let c = lowercase_chars(&chars_of("case"));
    let g = lowercase_chars(&chars_of("goto"));
    let a = lowercase_chars(&chars_of("add"));
    proof {
        reveal_strlit("case");
        reveal_strlit("goto");
        reveal_strlit("add");
        assert(is_ascii_text("case"@));
        assert(is_ascii_text("goto"@));
        assert(is_ascii_text("add"@));
        assert("case"@.map_values(|ch: char| ascii_lower(ch)) =~= "case"@);
        assert("goto"@.map_values(|ch: char| ascii_lower(ch)) =~= "goto"@);
        assert("add"@.map_values(|ch: char| ascii_lower(ch)) =~= "add"@);
    }
    eq_str(&c, "case") && eq_str(&g, "goto") && eq_str(&a, "add")
}

proof fn lemma_label_chars_word(w: Seq<char>)
    requires
        w.len() > 0,
        forall|j: int| 0 <= j < w.len() ==> label_char(#[trigger] w[j]),
    ensures
        asm_word(w),
{
    assert forall|j: int| 0 <= j < w.len() implies !is_ws(#[trigger] w[j]) && w[j] != ';' by {
        assert(label_char(w[j]));
    }
    assert(label_char(w[w.len() - 1]));
}

/// A made label followed by a suffix of label characters is a word of
/// label characters.
proof fn lemma_label_word(prefix: Seq<char>, c: usize, sfx: Seq<char>)
    requires
        forall|j: int| 0 <= j < prefix.len() ==> label_char(#[trigger] prefix[j]),
        forall|j: int| 0 <= j < sfx.len() ==> label_char(#[trigger] sfx[j]),
    ensures
        asm_word(label_text(prefix, c) + sfx),
        forall|j: int|
            0 <= j < (label_text(prefix, c) + sfx).len() ==> label_char(
                #[trigger] (label_text(prefix, c) + sfx)[j],
            ),
{
    let d = decimal(c as nat);
    lemma_decimal_value(c as nat);
    reveal_strlit("__");
    reveal_strlit("_");
    let w = label_text(prefix, c) + sfx;
    let a = "__"@ + prefix + "_"@;
    assert(w =~= a + d + "__"@ + sfx);
    assert forall|j: int| 0 <= j < w.len() implies label_char(#[trigger] w[j]) by {
        if j < 2 {
        } else if j < 2 + prefix.len() {
            assert(w[j] == prefix[j - 2]);
        } else if j < a.len() {
        } else if j < a.len() + d.len() {
            assert(w[j] == d[j - a.len()]);
            assert(is_digit(d[j - a.len()]));
        } else if j < a.len() + d.len() + 2 {
        } else {
            assert(w[j] == sfx[j - a.len() - d.len() - 2]);
        }
    }
    lemma_label_chars_word(w);
}

// ---------------------------------------------------------------------------
// Instantiating template lines
// ---------------------------------------------------------------------------

proof fn lemma_inst_plain(t: Seq<char>, rest: Seq<char>, args: Seq<Seq<char>>, label: Seq<char>)
    requires
        forall|j: int| 0 <= j < t.len() ==> #[trigger] t[j] != '{',
    ensures
        instantiate(t + rest, args, label) == t + instantiate(rest, args, label),
    decreases t.len(),
{
    if t.len() > 0 {
        let x = t + rest;
        assert(x[0] == t[0]);
        assert(x.skip(1) =~= t.skip(1) + rest);
        lemma_inst_plain(t.skip(1), rest, args, label);
        assert(seq![t[0]] + (t.skip(1) + instantiate(rest, args, label)) =~= t + instantiate(
            rest,
            args,
            label,
        ));
    } else {
        assert(t + rest =~= rest);
        assert(t + instantiate(rest, args, label) =~= instantiate(rest, args, label));
    }
}

/// A template line of plain text, one placeholder `{k}` and plain text,
/// instantiated: the placeholder's value between the two texts.
proof fn lemma_inst_line(p: Seq<char>, k: char, s: Seq<char>, args: Seq<Seq<char>>, label: Seq<char>)
    requires
        forall|j: int| 0 <= j < p.len() ==> #[trigger] p[j] != '{',
        forall|j: int| 0 <= j < s.len() ==> #[trigger] s[j] != '{',
        placeholder(k, args, label) is Some,
    ensures
        instantiate(p + seq!['{', k, '}'] + s, args, label) == p + placeholder(k, args, label)->0
            + s,
{
    let h = seq!['{', k, '}'];
    assert(p + h + s =~= p + (h + s));
    lemma_inst_plain(p, h + s, args, label);
    let x = h + s;
    assert(x.skip(3) =~= s);
    lemma_inst_plain(s, Seq::empty(), args, label);
    assert(s + Seq::<char>::empty() =~= s);
    assert(instantiate(Seq::<char>::empty(), args, label) == Seq::<char>::empty());
    assert(s + instantiate(Seq::<char>::empty(), args, label) =~= s);
}

// ---------------------------------------------------------------------------
// Reading the instantiated lines
// ---------------------------------------------------------------------------

proof fn lemma_asm_two(n: nat, cmd: Seq<char>, a: Seq<char>)
    requires
        asm_word(a),
        cmd.len() > 0,
        forall|j: int| 0 <= j < cmd.len() ==> label_char(#[trigger] cmd[j]),
    ensures
        ({
            let line = "    "@ + cmd + " "@ + a;
            &&& trim(cut_at(line, ';')) == cmd + " "@ + a
            &&& words(cmd + " "@ + a) == seq![cmd, a]
        }),
{
    reveal_strlit("    ");
    reveal_strlit(" ");
    let x = cmd + " "@ + a;
    assert(label_char(cmd[0]));
    assert(x[0] == cmd[0]);
    assert(x.last() == a.last());
    assert(a.last() == a[a.len() - 1]);
    assert forall|j: int| 0 <= j < x.len() implies #[trigger] x[j] != ';' by {
        if j < cmd.len() {
            assert(label_char(cmd[j]));
        } else if j > cmd.len() {
            assert(x[j] == a[j - cmd.len() - 1]);
        }
    }
    assert("    "@ + cmd + " "@ + a =~= "    "@ + x);
    lemma_trim_cut_plain("    "@, x, ';');
    let ws = seq![cmd, a];
    assert(plain_word(cmd)) by {
        assert forall|j: int| 0 <= j < cmd.len() implies !is_ws(#[trigger] cmd[j]) by {
            assert(label_char(cmd[j]));
        }
    }
    assert(plain_word(a));
    assert(join(ws, " "@) =~= x) by {
        assert(ws.drop_last() =~= seq![cmd]);
        assert(join(seq![cmd], " "@) == cmd);
        assert(ws.last() == a);
    }
    assert forall|i: int| 0 <= i < ws.len() implies plain_word(#[trigger] ws[i]) by {}
    lemma_words_join(ws);
}

proof fn lemma_asm_three(cmd: Seq<char>, mid: Seq<char>, a: Seq<char>)
    requires
        asm_word(a),
        cmd.len() > 0,
        forall|j: int| 0 <= j < cmd.len() ==> label_char(#[trigger] cmd[j]),
        mid.len() > 0,
        forall|j: int| 0 <= j < mid.len() ==> !is_ws(#[trigger] mid[j]) && mid[j] != ';',
    ensures
        ({
            let line = "    "@ + cmd + " "@ + mid + " "@ + a;
            &&& trim(cut_at(line, ';')) == cmd + " "@ + mid + " "@ + a
            &&& words(cmd + " "@ + mid + " "@ + a) == seq![cmd, mid, a]
        }),
{
    reveal_strlit("    ");
    reveal_strlit(" ");
    let x = cmd + " "@ + mid + " "@ + a;
    assert(label_char(cmd[0]));
    assert(x[0] == cmd[0]);
    assert(x.last() == a.last());
    assert(a.last() == a[a.len() - 1]);
    assert forall|j: int| 0 <= j < x.len() implies #[trigger] x[j] != ';' by {
        if j < cmd.len() {
            assert(label_char(cmd[j]));
        } else if cmd.len() < j < cmd.len() + 1 + mid.len() {
            assert(x[j] == mid[j - cmd.len() - 1]);
        } else if j > cmd.len() + 1 + mid.len() {
            assert(x[j] == a[j - cmd.len() - 2 - mid.len()]);
        }
    }
    assert("    "@ + cmd + " "@ + mid + " "@ + a =~= "    "@ + x);
    lemma_trim_cut_plain("    "@, x, ';');
    let ws = seq![cmd, mid, a];
    assert(plain_word(cmd)) by {
        assert forall|j: int| 0 <= j < cmd.len() implies !is_ws(#[trigger] cmd[j]) by {
            assert(label_char(cmd[j]));
        }
    }
    assert(plain_word(a));
    assert(plain_word(mid));
    assert(join(ws, " "@) =~= x) by {
        assert(ws.drop_last() =~= seq![cmd, mid]);
        assert(seq![cmd, mid].drop_last() =~= seq![cmd]);
        assert(join(seq![cmd], " "@) == cmd);
        assert(join(seq![cmd, mid], " "@) == cmd + " "@ + mid);
    }
    assert forall|i: int| 0 <= i < ws.len() implies plain_word(#[trigger] ws[i]) by {}
    lemma_words_join(ws);
}

/// `    case a` reads as a `case` of the register `a` names.
pub proof fn lemma_asm_case(n: nat, a: Seq<char>, r: usize)
    requires
        commands_kept(),
        asm_word(a),
        register_of(a) == Ok::<usize, Seq<char>>(r),
    ensures
        asm_line(n, "    case "@ + a) == Ok::<Option<AsmItem>, Seq<char>>(Some(AsmItem::Case(r))),
{
    reveal_strlit("case");
    reveal_strlit("    case ");
    reveal_strlit("    ");
    reveal_strlit(" ");
    reveal_strlit("add");
    reveal_strlit("goto");
    assert("    case "@ + a =~= "    "@ + "case"@ + " "@ + a);
    lemma_asm_two(n, "case"@, a);
    assert("case"@[0] != "goto"@[0]);
    assert("case"@ != "goto"@);
    let code = "case"@ + " "@ + a;
    assert(code.last() == a.last());
}

/// `    goto g` reads as a `goto` of the label `g`.
pub proof fn lemma_asm_goto(n: nat, g: Seq<char>)
    requires
        commands_kept(),
        asm_word(g),
    ensures
        asm_line(n, "    goto "@ + g) == Ok::<Option<AsmItem>, Seq<char>>(Some(AsmItem::Goto(g))),
{
    reveal_strlit("goto");
    reveal_strlit("    goto ");
    reveal_strlit("    ");
    reveal_strlit(" ");
    reveal_strlit("add");
    assert("    goto "@ + g =~= "    "@ + "goto"@ + " "@ + g);
    lemma_asm_two(n, "goto"@, g);
    let code = "goto"@ + " "@ + g;
    assert(code.last() == g.last());
}

/// `    add 1 a` and `    add # a` read as appending `1` or `#` to the
/// register `a` names.
pub proof fn lemma_asm_add(n: nat, one: bool, a: Seq<char>, r: usize)
    requires
        commands_kept(),
        asm_word(a),
        register_of(a) == Ok::<usize, Seq<char>>(r),
    ensures
        asm_line(n, (if one { "    add 1 "@ } else { "    add # "@ }) + a) == Ok::<
            Option<AsmItem>,
            Seq<char>,
        >(Some(if one { AsmItem::Add1(r) } else { AsmItem::AddHash(r) })),
{
    reveal_strlit("add");
    reveal_strlit("    add 1 ");
    reveal_strlit("    add # ");
    reveal_strlit("    ");
    reveal_strlit(" ");
    reveal_strlit("1");
    reveal_strlit("#");
    let mid = if one { "1"@ } else { "#"@ };
    assert((if one { "    add 1 "@ } else { "    add # "@ }) + a =~= "    "@ + "add"@ + " "@ + mid
        + " "@ + a);
    lemma_asm_three("add"@, mid, a);
    let code = "add"@ + " "@ + mid + " "@ + a;
    assert(code.last() == a.last());
}

/// `g:` reads as the label `g`.
pub proof fn lemma_asm_label(n: nat, g: Seq<char>)
    requires
        asm_word(g),
    ensures
        asm_line(n, g + ":"@) == Ok::<Option<AsmItem>, Seq<char>>(Some(AsmItem::Label(g))),
{
    reveal_strlit(":");
    let x = g + ":"@;
    assert(g[0] == x[0]);
    assert forall|j: int| 0 <= j < x.len() implies #[trigger] x[j] != ';' by {
        if j < g.len() {
            assert(x[j] == g[j]);
        }
    }
    assert(Seq::<char>::empty() + x =~= x);
    lemma_trim_cut_plain(Seq::empty(), x, ';');
    assert(x.drop_last() =~= g);
    assert(Seq::<char>::empty() + g =~= g);
    assert(g.last() == g[g.len() - 1]);
    lemma_trim_cut_plain(Seq::empty(), g, ';');
}

/// Every line of `ls` is non-empty, holds no newline and does not end with a
/// carriage return, when each consists of characters that are neither.
proof fn lemma_plain_lines(ls: Seq<Seq<char>>)
    requires
        forall|i: int|
            0 <= i < ls.len() ==> (#[trigger] ls[i]).len() > 0 && forall|j: int|
                0 <= j < ls[i].len() ==> ls[i][j] != '\n' && ls[i][j] != '\r',
    ensures
        plain_lines(ls),
{
    assert forall|i: int| 0 <= i < ls.len() implies #[trigger] ls[i].len() > 0 && ls[i].last()
        != '\r' && (forall|j: int| 0 <= j < ls[i].len() ==> ls[i][j] != '\n') by {
        assert(ls[i].last() == ls[i][ls[i].len() - 1]);
    }
}

proof fn lemma_word_no_newline(w: Seq<char>)
    requires
        asm_word(w),
    ensures
        forall|j: int| 0 <= j < w.len() ==> w[j] != '\n' && w[j] != '\r',
{
    assert forall|j: int| 0 <= j < w.len() implies w[j] != '\n' && w[j] != '\r' by {
        assert(!is_ws(w[j]));
    }
}

proof fn lemma_assembly_upto_items(x: Seq<Seq<char>>, items: Seq<AsmItem>, k: nat)
    requires
        k <= x.len() == items.len(),
        forall|i: int|
            0 <= i < x.len() ==> asm_line((i + 1) as nat, #[trigger] x[i]) == Ok::<
                Option<AsmItem>,
                Seq<char>,
            >(Some(items[i])),
    ensures
        assembly_upto(x, k) == Ok::<Seq<AsmItem>, Seq<char>>(items.take(k as int)),
    decreases k,
{
    if k == 0 {
        assert(items.take(0) =~= Seq::<AsmItem>::empty());
    } else {
        lemma_assembly_upto_items(x, items, (k - 1) as nat);
        assert(asm_line(k, x[k - 1]) == Ok::<Option<AsmItem>, Seq<char>>(Some(items[k - 1])));
        assert(items.take(k - 1).push(items[k - 1]) =~= items.take(k as int));
    }
}

/// Lines that each read as one assembly item, joined with newlines, are
/// read as those items.
proof fn lemma_assembly_of_lines(x: Seq<Seq<char>>, items: Seq<AsmItem>)
    requires
        x.len() > 0,
        x.len() == items.len(),
        plain_lines(x),
        forall|i: int|
            0 <= i < x.len() ==> asm_line((i + 1) as nat, #[trigger] x[i]) == Ok::<
                Option<AsmItem>,
                Seq<char>,
            >(Some(items[i])),
    ensures
        assembly_of(join(x, "\n"@)) == Ok::<Seq<AsmItem>, Seq<char>>(items),
{
    lemma_lines_join(x);
    lemma_assembly_upto_items(x, items, x.len());
    assert(items.take(x.len() as int) =~= items);
}

/// The lines that a call `clear a` becomes, with `label` made for the call.
pub open spec fn clear_lines(label: Seq<char>, a: Seq<char>) -> Seq<Seq<char>> {
    seq![
        label + ":"@,
        "    case "@ + a,
        "    goto "@ + label + "_done"@,
        "    goto "@ + label,
        "    goto "@ + label,
        label + "_done"@ + ":"@,
    ]
}

/// The made label of a call with prefix `prefix` and counter `c`, and the
/// same label with `_done` after it, are words of label characters.
proof fn lemma_label_words(prefix: Seq<char>, c: usize)
    requires
        forall|j: int| 0 <= j < prefix.len() ==> label_char(#[trigger] prefix[j]),
    ensures
        asm_word(label_text(prefix, c)),
        asm_word(label_text(prefix, c) + "_done"@),
        forall|j: int| 0 <= j < label_text(prefix, c).len() ==> label_char(#[trigger] label_text(prefix, c)[j]),
        (label_text(prefix, c) + "_done"@).len() == label_text(prefix, c).len() + 5,
{
    reveal_strlit("_done");
    lemma_label_word(prefix, c, Seq::empty());
    assert(label_text(prefix, c) + Seq::<char>::empty() =~= label_text(prefix, c));
    lemma_label_word(prefix, c, "_done"@);
}

#[verifier::spinoff_prover]
proof fn lemma_clear_expands(parts: Seq<Seq<char>>, n: nat, c: usize)
    requires
        parts.len() == 2,
    ensures
        builtin_expansion("clear"@, parts, n, c) == Ok::<Expansion, Seq<char>>(
            Expansion {
                lines: clear_lines(label_text("clr"@, c), parts[1]),
                changed: true,
                counter: next_label(c),
            },
        ),
{
    let a = parts[1];
    reveal_strlit("clr");
    let label = label_text("clr"@, c);
    let tl = seq!["{L}:"@, "    case {1}"@, "    goto {L}_done"@, "    goto {L}"@, "    goto {L}"@, "{L}_done:"@];
    reveal_strlit("{L}:\n    case {1}\n    goto {L}_done\n    goto {L}\n    goto {L}\n{L}_done:");
    reveal_strlit("{L}:");
    reveal_strlit("    case {1}");
    reveal_strlit("    goto {L}_done");
    reveal_strlit("    goto {L}");
    reveal_strlit("{L}_done:");
    reveal_strlit("\n");
    assert(join(tl, "\n"@) =~= CLEAR_BODY@) by {
        reveal_with_fuel(join, 7);
        assert(tl.drop_last().drop_last().drop_last().drop_last().drop_last() =~= seq!["{L}:"@]);
    }
    lemma_plain_lines(tl);
    lemma_lines_join(tl);
    reveal_strlit(":");
    reveal_strlit("    case ");
    reveal_strlit("    goto ");
    reveal_strlit("_done:");
    reveal_strlit("_done");
    let h = seq!['{', 'L', '}'];
    let h1 = seq!['{', '1', '}'];
    assert(placeholder('L', parts, label) == Some(label));
    assert('1' as u32 == 49 && '0' as u32 == 48);
    assert(placeholder('1', parts, label) == Some(a));
    let e = Seq::<char>::empty();
    assert(tl[0] =~= e + h + ":"@);
    lemma_inst_line(e, 'L', ":"@, parts, label);
    assert(tl[1] =~= "    case "@ + h1 + e);
    lemma_inst_line("    case "@, '1', e, parts, label);
    assert(tl[2] =~= "    goto "@ + h + "_done"@);
    lemma_inst_line("    goto "@, 'L', "_done"@, parts, label);
    assert(tl[3] =~= "    goto "@ + h + e);
    lemma_inst_line("    goto "@, 'L', e, parts, label);
    assert(tl[5] =~= e + h + "_done:"@);
    lemma_inst_line(e, 'L', "_done:"@, parts, label);
    let x = builtin_expansion("clear"@, parts, n, c)->Ok_0.lines;
    assert(builtin("clear"@) == Some(
        super::templates::Builtin { arity: 1, label_prefix: Some("clr"@), usage: super::templates::CLEAR_USAGE@, body: CLEAR_BODY@ },
    ));
    assert(x.len() == 6);
    let cl = clear_lines(label, a);
    assert(x[0] == e + label + ":"@);
    assert(x[1] == "    case "@ + a + e);
    assert(x[2] == "    goto "@ + label + "_done"@);
    assert(x[3] == "    goto "@ + label + e);
    assert(x[4] == "    goto "@ + label + e);
    assert(x[5] == e + label + "_done:"@);
    assert(x[0] =~= cl[0]);
    assert(x[1] =~= cl[1]);
    assert(x[2] =~= cl[2]);
    assert(x[3] =~= cl[3]);
    assert(x[4] =~= cl[4]);
    assert(x[5] =~= cl[5]);
    assert(x =~= cl);
}

#[verifier::spinoff_prover]
proof fn lemma_clear_reads(label: Seq<char>, a: Seq<char>, r: usize)
    requires
        commands_kept(),
        asm_word(a),
        asm_word(label),
        asm_word(label + "_done"@),
        register_of(a) == Ok::<usize, Seq<char>>(r),
    ensures
        assembly_of(join(clear_lines(label, a), "\n"@)) == Ok::<Seq<AsmItem>, Seq<char>>(
            seq![
                AsmItem::Label(label),
                AsmItem::Case(r),
                AsmItem::Goto(label + "_done"@),
                AsmItem::Goto(label),
                AsmItem::Goto(label),
                AsmItem::Label(label + "_done"@),
            ],
        ),
{
    let done = label + "_done"@;
    let x = clear_lines(label, a);
    assert(x[2] =~= "    goto "@ + done);
    assert(x[5] =~= done + ":"@);
    lemma_word_no_newline(a);
    lemma_word_no_newline(label);
    lemma_word_no_newline(done);
    reveal_strlit(":");
    reveal_strlit("    case ");
    reveal_strlit("    goto ");
    lemma_plain_lines(x);
    lemma_asm_label(1, label);
    lemma_asm_case(2, a, r);
    lemma_asm_goto(3, done);
    lemma_asm_goto(4, label);
    lemma_asm_goto(5, label);
    lemma_asm_label(6, done);
    let items = seq![
        AsmItem::Label(label),
        AsmItem::Case(r),
        AsmItem::Goto(done),
        AsmItem::Goto(label),
        AsmItem::Goto(label),
        AsmItem::Label(done),
    ];
    assert forall|i: int| 0 <= i < x.len() implies asm_line((i + 1) as nat, #[trigger] x[i]) == Ok::<
        Option<AsmItem>,
        Seq<char>,
    >(Some(items[i])) by {
        if i == 0 {
        } else if i == 1 {
        } else if i == 2 {
        } else if i == 3 {
        } else if i == 4 {
        } else {
        }
    }
    lemma_assembly_of_lines(x, items);
}

#[verifier::spinoff_prover]
proof fn lemma_clear_resolves(label: Seq<char>, done: Seq<char>, r: usize)
    requires
        label != done,
        label != halt_label(),
        done != halt_label(),
    ensures
        resolved(
            seq![
                AsmItem::Label(label),
                AsmItem::Case(r),
                AsmItem::Goto(done),
                AsmItem::Goto(label),
                AsmItem::Goto(label),
                AsmItem::Label(done),
            ],
        ) == Ok::<Seq<Instruction>, Seq<char>>(clear_program(r)),
{
    let items = seq![
        AsmItem::Label(label),
        AsmItem::Case(r),
        AsmItem::Goto(done),
        AsmItem::Goto(label),
        AsmItem::Goto(label),
        AsmItem::Label(done),
    ];
    let m0 = Map::<Seq<char>, nat>::empty();
    assert(position(items, 1) == 0);
    assert(position(items, 2) == 1);
    assert(position(items, 3) == 2);
    assert(position(items, 4) == 3);
    assert(position(items, 5) == 4);
    assert(position(items, 6) == 4);
    assert(labels_upto(items, 0) == Ok::<Map<Seq<char>, nat>, Seq<char>>(m0));
    assert(labels_upto(items, 1) == Ok::<Map<Seq<char>, nat>, Seq<char>>(m0.insert(label, 0)));
    assert(labels_upto(items, 2) == Ok::<Map<Seq<char>, nat>, Seq<char>>(m0.insert(label, 0)));
    assert(labels_upto(items, 3) == Ok::<Map<Seq<char>, nat>, Seq<char>>(m0.insert(label, 0)));
    assert(labels_upto(items, 4) == Ok::<Map<Seq<char>, nat>, Seq<char>>(m0.insert(label, 0)));
    assert(labels_upto(items, 5) == Ok::<Map<Seq<char>, nat>, Seq<char>>(m0.insert(label, 0)));
    assert(labels_upto(items, 6) == Ok::<Map<Seq<char>, nat>, Seq<char>>(
        m0.insert(label, 0).insert(done, 4),
    ));
    let t = m0.insert(label, 0).insert(done, 4).insert(halt_label(), 4);
    assert(label_table(items) == Ok::<Map<Seq<char>, nat>, Seq<char>>(t));
    assert(t[done] == 4 && t[label] == 0);
    let p = clear_program(r);
    let e = Seq::<Instruction>::empty();
    assert(resolve_upto(items, t, 0) == Ok::<Seq<Instruction>, Seq<char>>(e));
    assert(items[0] is Label);
    assert(resolve_upto(items, t, 1) == Ok::<Seq<Instruction>, Seq<char>>(e));
    assert(e.push(Instruction::Case(r)) =~= p.take(1));
    assert(t.contains_key(done));
    assert(super::jump(done, 4, 1) == Ok::<Instruction, Seq<char>>(Instruction::Forward(3)));
    assert(p.take(1).push(Instruction::Forward(3)) =~= p.take(2));
    assert(p.take(2).push(Instruction::Backward(2)) =~= p.take(3));
    assert(p.take(3).push(Instruction::Backward(3)) =~= p.take(4));
    assert(resolve_upto(items, t, 2) == Ok::<Seq<Instruction>, Seq<char>>(p.take(1)));
    assert(resolve_upto(items, t, 3) == Ok::<Seq<Instruction>, Seq<char>>(p.take(2)));
    assert(resolve_upto(items, t, 4) == Ok::<Seq<Instruction>, Seq<char>>(p.take(3)));
    assert(resolve_upto(items, t, 5) == Ok::<Seq<Instruction>, Seq<char>>(p.take(4)));
    assert(resolve_upto(items, t, 6) == Ok::<Seq<Instruction>, Seq<char>>(p.take(4)));
    assert(p.take(4) =~= p);
}

/// A made label differs from the label that `halt` jumps to, and so does
/// the label with `_done` after it, when the prefix does not start with `h`.
proof fn lemma_label_not_halt(prefix: Seq<char>, c: usize)
    requires
        prefix.len() > 0,
        prefix[0] != 'h',
    ensures
        label_text(prefix, c) != halt_label(),
        label_text(prefix, c) + "_done"@ != halt_label(),
{
    reveal_strlit("__halt__");
    reveal_strlit("__");
    let l = label_text(prefix, c);
    assert(l[2] == prefix[0]);
    assert((l + "_done"@)[2] == prefix[0]);
    assert(halt_label()[2] == 'h');
}

/// The template of `clear`, for a call `clear a` where `a` names register
/// `r`, becomes lines that assemble to `clear_program(r)`; the call uses up
/// one label number.
pub proof fn lemma_clear_template(parts: Seq<Seq<char>>, n: nat, c: usize, r: usize)
    requires
        commands_kept(),
        parts.len() == 2,
        asm_word(parts[1]),
        register_of(parts[1]) == Ok::<usize, Seq<char>>(r),
    ensures
        builtin_expansion("clear"@, parts, n, c) == Ok::<Expansion, Seq<char>>(
            Expansion {
                lines: builtin_expansion("clear"@, parts, n, c)->Ok_0.lines,
                changed: true,
                counter: next_label(c),
            },
        ),
        assembled(join(builtin_expansion("clear"@, parts, n, c)->Ok_0.lines, "\n"@)) == Ok::<
            Seq<Instruction>,
            Seq<char>,
        >(clear_program(r)),
{
    reveal_strlit("clr");
    let label = label_text("clr"@, c);
    lemma_label_words("clr"@, c);
    lemma_label_not_halt("clr"@, c);
    lemma_clear_expands(parts, n, c);
    lemma_clear_reads(label, parts[1], r);
    lemma_clear_resolves(label, label + "_done"@, r);
}

/// A made label with one suffix differs from the same label with another.
proof fn lemma_suffix_distinct(label: Seq<char>, s1: Seq<char>, s2: Seq<char>)
    requires
        s1 != s2,
    ensures
        label + s1 != label + s2,
{
    if label + s1 == label + s2 {
        assert(s1 =~= (label + s1).subrange(label.len() as int, (label + s1).len() as int));
        assert(s2 =~= (label + s2).subrange(label.len() as int, (label + s2).len() as int));
    }
}

/// A made label followed by any suffix differs from the label that `halt`
/// jumps to, when the prefix does not start with `h`.
proof fn lemma_suffix_not_halt(prefix: Seq<char>, c: usize, sfx: Seq<char>)
    requires
        prefix.len() > 0,
        prefix[0] != 'h',
    ensures
        label_text(prefix, c) + sfx != halt_label(),
{
    reveal_strlit("__halt__");
    reveal_strlit("__");
    let l = label_text(prefix, c) + sfx;
    assert(l[2] == prefix[0]);
    assert(halt_label()[2] == 'h');
}

/// The made label with a suffix of label characters is an assembly word.
proof fn lemma_suffix_word(prefix: Seq<char>, c: usize, sfx: Seq<char>)
    requires
        forall|j: int| 0 <= j < prefix.len() ==> label_char(#[trigger] prefix[j]),
        forall|j: int| 0 <= j < sfx.len() ==> label_char(#[trigger] sfx[j]),
    ensures
        asm_word(label_text(prefix, c) + sfx),
        forall|j: int|
            0 <= j < (label_text(prefix, c) + sfx).len() ==> (label_text(prefix, c) + sfx)[j]
                != '\n' && (label_text(prefix, c) + sfx)[j] != '\r',
{
    lemma_label_word(prefix, c, sfx);
    lemma_word_no_newline(label_text(prefix, c) + sfx);
}

/// The lines that a call `move a b` becomes, with `label` made for the call.
pub open spec fn move_lines(label: Seq<char>, a: Seq<char>, b: Seq<char>) -> Seq<Seq<char>> {
    seq![
        label + ":"@,
        "    case "@ + a,
        "    goto "@ + (label + "_done"@),
        "    goto "@ + (label + "_one"@),
        "    goto "@ + (label + "_hash"@),
        (label + "_one"@) + ":"@,
        "    add 1 "@ + b,
        "    goto "@ + label,
        (label + "_hash"@) + ":"@,
        "    add # "@ + b,
        "    goto "@ + label,
        (label + "_done"@) + ":"@,
    ]
}

#[verifier::spinoff_prover]
#[verifier::rlimit(40)]
proof fn lemma_move_expands(parts: Seq<Seq<char>>, n: nat, c: usize)
    requires
        parts.len() == 3,
    ensures
        builtin_expansion("move"@, parts, n, c) == Ok::<Expansion, Seq<char>>(
            Expansion {
                lines: move_lines(label_text("mv"@, c), parts[1], parts[2]),
                changed: true,
                counter: next_label(c),
            },
        ),
{
    let a = parts[1];
    let b = parts[2];
    reveal_strlit("mv");
    reveal_strlit("move");
    reveal_strlit("clear");
    let label = label_text("mv"@, c);
    let tl = seq![
        "{L}:"@, "    case {1}"@, "    goto {L}_done"@, "    goto {L}_one"@, "    goto {L}_hash"@,
        "{L}_one:"@, "    add 1 {2}"@, "    goto {L}"@, "{L}_hash:"@, "    add # {2}"@,
        "    goto {L}"@, "{L}_done:"@,
    ];
    reveal_strlit("{L}:\n    case {1}\n    goto {L}_done\n    goto {L}_one\n    goto {L}_hash\n{L}_one:\n    add 1 {2}\n    goto {L}\n{L}_hash:\n    add # {2}\n    goto {L}\n{L}_done:");
    reveal_strlit("{L}:");
    reveal_strlit("    case {1}");
    reveal_strlit("    goto {L}_done");
    reveal_strlit("    goto {L}_one");
    reveal_strlit("    goto {L}_hash");
    reveal_strlit("{L}_one:");
    reveal_strlit("    add 1 {2}");
    reveal_strlit("    goto {L}");
    reveal_strlit("{L}_hash:");
    reveal_strlit("    add # {2}");
    reveal_strlit("{L}_done:");
    reveal_strlit("\n");
    assert(join(tl, "\n"@) =~= MOVE_BODY@) by {
        reveal_with_fuel(join, 13);
        assert(tl.take(1) =~= seq!["{L}:"@]);
    }
    lemma_plain_lines(tl);
    lemma_lines_join(tl);
    assert("move"@.len() != "clear"@.len());
    assert("move"@ != "clear"@);
    assert(builtin("move"@) == Some(
        super::templates::Builtin { arity: 2, label_prefix: Some("mv"@), usage: super::templates::MOVE_USAGE@, body: MOVE_BODY@ },
    ));
    reveal_strlit(":");
    reveal_strlit("    case ");
    reveal_strlit("    goto ");
    reveal_strlit("    add 1 ");
    reveal_strlit("    add # ");
    reveal_strlit("_done");
    reveal_strlit("_one");
    reveal_strlit("_hash");
    reveal_strlit("_done:");
    reveal_strlit("_one:");
    reveal_strlit("_hash:");
    let h = seq!['{', 'L', '}'];
    let h1 = seq!['{', '1', '}'];
    let h2 = seq!['{', '2', '}'];
    assert(placeholder('L', parts, label) == Some(label));
    assert('1' as u32 == 49 && '2' as u32 == 50 && '0' as u32 == 48);
    assert(placeholder('1', parts, label) == Some(a));
    assert(placeholder('2', parts, label) == Some(b));
    let e = Seq::<char>::empty();
    assert(tl[0] =~= e + h + ":"@);
    lemma_inst_line(e, 'L', ":"@, parts, label);
    assert(tl[1] =~= "    case "@ + h1 + e);
    lemma_inst_line("    case "@, '1', e, parts, label);
    assert(tl[2] =~= "    goto "@ + h + "_done"@);
    lemma_inst_line("    goto "@, 'L', "_done"@, parts, label);
    assert(tl[3] =~= "    goto "@ + h + "_one"@);
    lemma_inst_line("    goto "@, 'L', "_one"@, parts, label);
    assert(tl[4] =~= "    goto "@ + h + "_hash"@);
    lemma_inst_line("    goto "@, 'L', "_hash"@, parts, label);
    assert(tl[5] =~= e + h + "_one:"@);
    lemma_inst_line(e, 'L', "_one:"@, parts, label);
    assert(tl[6] =~= "    add 1 "@ + h2 + e);
    lemma_inst_line("    add 1 "@, '2', e, parts, label);
    assert(tl[7] =~= "    goto "@ + h + e);
    lemma_inst_line("    goto "@, 'L', e, parts, label);
    assert(tl[8] =~= e + h + "_hash:"@);
    lemma_inst_line(e, 'L', "_hash:"@, parts, label);
    assert(tl[9] =~= "    add # "@ + h2 + e);
    lemma_inst_line("    add # "@, '2', e, parts, label);
    assert(tl[11] =~= e + h + "_done:"@);
    lemma_inst_line(e, 'L', "_done:"@, parts, label);
    let x = builtin_expansion("move"@, parts, n, c)->Ok_0.lines;
    let ml = move_lines(label, a, b);
    assert(x.len() == 12);
    assert forall|i: int| 0 <= i < 12 implies #[trigger] x[i] =~= ml[i] by {
        assert(x[i] == instantiate(tl[i], parts, label));
    }
    assert(x =~= ml);
}

#[verifier::spinoff_prover]
#[verifier::rlimit(40)]
proof fn lemma_move_reads(label: Seq<char>, a: Seq<char>, b: Seq<char>, ra: usize, rb: usize)
    requires
        commands_kept(),
        asm_word(a),
        asm_word(b),
        asm_word(label),
        asm_word(label + "_done"@),
        asm_word(label + "_one"@),
        asm_word(label + "_hash"@),
        register_of(a) == Ok::<usize, Seq<char>>(ra),
        register_of(b) == Ok::<usize, Seq<char>>(rb),
    ensures
        assembly_of(join(move_lines(label, a, b), "\n"@)) == Ok::<Seq<AsmItem>, Seq<char>>(
            seq![
                AsmItem::Label(label),
                AsmItem::Case(ra),
                AsmItem::Goto(label + "_done"@),
                AsmItem::Goto(label + "_one"@),
                AsmItem::Goto(label + "_hash"@),
                AsmItem::Label(label + "_one"@),
                AsmItem::Add1(rb),
                AsmItem::Goto(label),
                AsmItem::Label(label + "_hash"@),
                AsmItem::AddHash(rb),
                AsmItem::Goto(label),
                AsmItem::Label(label + "_done"@),
            ],
        ),
{
    let x = move_lines(label, a, b);
    lemma_word_no_newline(a);
    lemma_word_no_newline(b);
    lemma_word_no_newline(label);
    lemma_word_no_newline(label + "_done"@);
    lemma_word_no_newline(label + "_one"@);
    lemma_word_no_newline(label + "_hash"@);
    reveal_strlit(":");
    reveal_strlit("    case ");
    reveal_strlit("    goto ");
    reveal_strlit("    add 1 ");
    reveal_strlit("    add # ");
    lemma_plain_lines(x);
    let items = seq![
        AsmItem::Label(label),
        AsmItem::Case(ra),
        AsmItem::Goto(label + "_done"@),
        AsmItem::Goto(label + "_one"@),
        AsmItem::Goto(label + "_hash"@),
        AsmItem::Label(label + "_one"@),
        AsmItem::Add1(rb),
        AsmItem::Goto(label),
        AsmItem::Label(label + "_hash"@),
        AsmItem::AddHash(rb),
        AsmItem::Goto(label),
        AsmItem::Label(label + "_done"@),
    ];
    assert forall|i: int| 0 <= i < x.len() implies asm_line((i + 1) as nat, #[trigger] x[i]) == Ok::<
        Option<AsmItem>,
        Seq<char>,
    >(Some(items[i])) by {
        if i == 0 {
            lemma_asm_label(1, label);
        } else if i == 1 {
            lemma_asm_case(2, a, ra);
        } else if i == 2 {
            lemma_asm_goto(3, label + "_done"@);
        } else if i == 3 {
            lemma_asm_goto(4, label + "_one"@);
        } else if i == 4 {
            lemma_asm_goto(5, label + "_hash"@);
        } else if i == 5 {
            lemma_asm_label(6, label + "_one"@);
        } else if i == 6 {
            lemma_asm_add(7, true, b, rb);
        } else if i == 7 {
            lemma_asm_goto(8, label);
        } else if i == 8 {
            lemma_asm_label(9, label + "_hash"@);
        } else if i == 9 {
            lemma_asm_add(10, false, b, rb);
        } else if i == 10 {
            lemma_asm_goto(11, label);
        } else {
            lemma_asm_label(12, label + "_done"@);
        }
    }
    lemma_assembly_of_lines(x, items);
}

#[verifier::spinoff_prover]
#[verifier::rlimit(40)]
proof fn lemma_move_resolves(l: Seq<char>, lo: Seq<char>, lh: Seq<char>, ld: Seq<char>, ra: usize, rb: usize)
    requires
        l != lo && l != lh && l != ld && lo != lh && lo != ld && lh != ld,
        l != halt_label() && lo != halt_label() && lh != halt_label() && ld != halt_label(),
    ensures
        resolved(
            seq![
                AsmItem::Label(l),
                AsmItem::Case(ra),
                AsmItem::Goto(ld),
                AsmItem::Goto(lo),
                AsmItem::Goto(lh),
                AsmItem::Label(lo),
                AsmItem::Add1(rb),
                AsmItem::Goto(l),
                AsmItem::Label(lh),
                AsmItem::AddHash(rb),
                AsmItem::Goto(l),
                AsmItem::Label(ld),
            ],
        ) == Ok::<Seq<Instruction>, Seq<char>>(move_program(ra, rb)),
{
    let items = seq![
        AsmItem::Label(l),
        AsmItem::Case(ra),
        AsmItem::Goto(ld),
        AsmItem::Goto(lo),
        AsmItem::Goto(lh),
        AsmItem::Label(lo),
        AsmItem::Add1(rb),
        AsmItem::Goto(l),
        AsmItem::Label(lh),
        AsmItem::AddHash(rb),
        AsmItem::Goto(l),
        AsmItem::Label(ld),
    ];
    assert(position(items, 1) == 0);
    assert(position(items, 2) == 1);
    assert(position(items, 3) == 2);
    assert(position(items, 4) == 3);
    assert(position(items, 5) == 4);
    assert(position(items, 6) == 4);
    assert(position(items, 7) == 5);
    assert(position(items, 8) == 6);
    assert(position(items, 9) == 6);
    assert(position(items, 10) == 7);
    assert(position(items, 11) == 8);
    assert(position(items, 12) == 8);
    let m0 = Map::<Seq<char>, nat>::empty();
    let m1 = m0.insert(l, 0);
    let m2 = m1.insert(lo, 4);
    let m3 = m2.insert(lh, 6);
    let m4 = m3.insert(ld, 8);
    assert(labels_upto(items, 0) == Ok::<Map<Seq<char>, nat>, Seq<char>>(m0));
    assert(labels_upto(items, 1) == Ok::<Map<Seq<char>, nat>, Seq<char>>(m1));
    assert(labels_upto(items, 2) == Ok::<Map<Seq<char>, nat>, Seq<char>>(m1));
    assert(labels_upto(items, 3) == Ok::<Map<Seq<char>, nat>, Seq<char>>(m1));
    assert(labels_upto(items, 4) == Ok::<Map<Seq<char>, nat>, Seq<char>>(m1));
    assert(labels_upto(items, 5) == Ok::<Map<Seq<char>, nat>, Seq<char>>(m1));
    assert(labels_upto(items, 6) == Ok::<Map<Seq<char>, nat>, Seq<char>>(m2));
    assert(labels_upto(items, 7) == Ok::<Map<Seq<char>, nat>, Seq<char>>(m2));
    assert(labels_upto(items, 8) == Ok::<Map<Seq<char>, nat>, Seq<char>>(m2));
    assert(labels_upto(items, 9) == Ok::<Map<Seq<char>, nat>, Seq<char>>(m3));
    assert(labels_upto(items, 10) == Ok::<Map<Seq<char>, nat>, Seq<char>>(m3));
    assert(labels_upto(items, 11) == Ok::<Map<Seq<char>, nat>, Seq<char>>(m3));
    assert(labels_upto(items, 12) == Ok::<Map<Seq<char>, nat>, Seq<char>>(m4));
    let t = m4.insert(halt_label(), 8);
    assert(label_table(items) == Ok::<Map<Seq<char>, nat>, Seq<char>>(t));
    assert(t[l] == 0 && t[lo] == 4 && t[lh] == 6 && t[ld] == 8);
    assert(t.contains_key(l) && t.contains_key(lo) && t.contains_key(lh) && t.contains_key(ld));
    let p = move_program(ra, rb);
    let e = Seq::<Instruction>::empty();
    assert(resolve_upto(items, t, 0) == Ok::<Seq<Instruction>, Seq<char>>(e));
    assert(resolve_upto(items, t, 1) == Ok::<Seq<Instruction>, Seq<char>>(e));
    assert(e.push(p[0]) =~= p.take(1));
    assert forall|k: int| 1 <= k < 8 implies #[trigger] p.take(k).push(p[k]) =~= p.take(k + 1) by {}
    assert(super::jump(ld, 8, 1) == Ok::<Instruction, Seq<char>>(Instruction::Forward(7)));
    assert(super::jump(lo, 4, 2) == Ok::<Instruction, Seq<char>>(Instruction::Forward(2)));
    assert(super::jump(lh, 6, 3) == Ok::<Instruction, Seq<char>>(Instruction::Forward(3)));
    assert(super::jump(l, 0, 5) == Ok::<Instruction, Seq<char>>(Instruction::Backward(5)));
    assert(super::jump(l, 0, 7) == Ok::<Instruction, Seq<char>>(Instruction::Backward(7)));
    assert(resolve_upto(items, t, 2) == Ok::<Seq<Instruction>, Seq<char>>(p.take(1)));
    assert(resolve_upto(items, t, 3) == Ok::<Seq<Instruction>, Seq<char>>(p.take(2)));
    assert(resolve_upto(items, t, 4) == Ok::<Seq<Instruction>, Seq<char>>(p.take(3)));
    assert(resolve_upto(items, t, 5) == Ok::<Seq<Instruction>, Seq<char>>(p.take(4)));
    assert(resolve_upto(items, t, 6) == Ok::<Seq<Instruction>, Seq<char>>(p.take(4)));
    assert(resolve_upto(items, t, 7) == Ok::<Seq<Instruction>, Seq<char>>(p.take(5)));
    assert(resolve_upto(items, t, 8) == Ok::<Seq<Instruction>, Seq<char>>(p.take(6)));
    assert(resolve_upto(items, t, 9) == Ok::<Seq<Instruction>, Seq<char>>(p.take(6)));
    assert(resolve_upto(items, t, 10) == Ok::<Seq<Instruction>, Seq<char>>(p.take(7)));
    assert(resolve_upto(items, t, 11) == Ok::<Seq<Instruction>, Seq<char>>(p.take(8)));
    assert(resolve_upto(items, t, 12) == Ok::<Seq<Instruction>, Seq<char>>(p.take(8)));
    assert(p.take(8) =~= p);
}

/// The template of `move`, for a call `move a b` where `a` and `b` name
/// registers `ra` and `rb`, becomes lines that assemble to
/// `move_program(ra, rb)`; the call uses up one label number.
pub proof fn lemma_move_template(parts: Seq<Seq<char>>, n: nat, c: usize, ra: usize, rb: usize)
    requires
        commands_kept(),
        parts.len() == 3,
        asm_word(parts[1]),
        asm_word(parts[2]),
        register_of(parts[1]) == Ok::<usize, Seq<char>>(ra),
        register_of(parts[2]) == Ok::<usize, Seq<char>>(rb),
    ensures
        builtin_expansion("move"@, parts, n, c) == Ok::<Expansion, Seq<char>>(
            Expansion {
                lines: builtin_expansion("move"@, parts, n, c)->Ok_0.lines,
                changed: true,
                counter: next_label(c),
            },
        ),
        assembled(join(builtin_expansion("move"@, parts, n, c)->Ok_0.lines, "\n"@)) == Ok::<
            Seq<Instruction>,
            Seq<char>,
        >(move_program(ra, rb)),
{
    reveal_strlit("mv");
    reveal_strlit("_done");
    reveal_strlit("_one");
    reveal_strlit("_hash");
    let l = label_text("mv"@, c);
    let e = Seq::<char>::empty();
    lemma_suffix_word("mv"@, c, e);
    assert(l + e =~= l);
    lemma_suffix_word("mv"@, c, "_done"@);
    lemma_suffix_word("mv"@, c, "_one"@);
    lemma_suffix_word("mv"@, c, "_hash"@);
    lemma_suffix_not_halt("mv"@, c, e);
    lemma_suffix_not_halt("mv"@, c, "_done"@);
    lemma_suffix_not_halt("mv"@, c, "_one"@);
    lemma_suffix_not_halt("mv"@, c, "_hash"@);
    assert(e != "_done"@ && e != "_one"@ && e != "_hash"@);
    assert("_one"@ != "_hash"@ && "_one"@ != "_done"@);
    assert("_hash"@[1] != "_done"@[1]);
    lemma_suffix_distinct(l, e, "_done"@);
    lemma_suffix_distinct(l, e, "_one"@);
    lemma_suffix_distinct(l, e, "_hash"@);
    lemma_suffix_distinct(l, "_one"@, "_hash"@);
    lemma_suffix_distinct(l, "_one"@, "_done"@);
    lemma_suffix_distinct(l, "_hash"@, "_done"@);
    lemma_move_expands(parts, n, c);
    lemma_move_reads(l, parts[1], parts[2], ra, rb);
    lemma_move_resolves(l, l + "_one"@, l + "_hash"@, l + "_done"@, ra, rb);
}

/// The lines that a call `pop a1` becomes, with `label` made for the call.
pub open spec fn pop_lines(label: Seq<char>, a1: Seq<char>) -> Seq<Seq<char>> {
    seq![
        label + ":"@,
        "    case "@ + a1,
        "    goto "@ + (label + "_done"@),
        "    goto "@ + (label + "_done"@),
        "    goto "@ + (label + "_done"@),
        (label + "_done"@) + ":"@,
    ]
}


#[verifier::spinoff_prover]
#[verifier::rlimit(80)]
proof fn lemma_pop_expands(parts: Seq<Seq<char>>, n: nat, c: usize)
    requires
        parts.len() == 2,
    ensures
        builtin_expansion("pop"@, parts, n, c) == Ok::<Expansion, Seq<char>>(
            Expansion {
                lines: pop_lines(label_text("pop"@, c), parts[1]),
                changed: true,
                counter: next_label(c),
            },
        ),
{
    reveal_strlit("pop");
    reveal_strlit("pop");
    let label = label_text("pop"@, c);
    let tl = seq![
        "{L}:"@,
        "    case {1}"@,
        "    goto {L}_done"@,
        "    goto {L}_done"@,
        "    goto {L}_done"@,
        "{L}_done:"@,
    ];
    reveal_strlit("{L}:\n    case {1}\n    goto {L}_done\n    goto {L}_done\n    goto {L}_done\n{L}_done:");
    reveal_strlit("    case {1}");
    reveal_strlit("    goto {L}_done");
    reveal_strlit("{L}:");
    reveal_strlit("{L}_done:");
    reveal_strlit("\n");
    assert(join(tl, "\n"@) =~= POP_BODY@) by {
        reveal_with_fuel(join, 7);
        assert(tl.take(1) =~= seq![tl[0]]);
    }
    lemma_plain_lines(tl);
    lemma_lines_join(tl);
    reveal_strlit("copy");
    reveal_strlit("move");
    reveal_strlit("clear");
    assert("pop"@.len() != "clear"@.len());
    assert("pop"@ != "clear"@);
    assert("pop"@.len() != "move"@.len());
    assert("pop"@ != "move"@);
    assert("pop"@.len() != "copy"@.len());
    assert("pop"@ != "copy"@);
    assert(builtin("pop"@) == Some(
        super::templates::Builtin { arity: 1, label_prefix: Some("pop"@), usage: super::templates::POP_USAGE@, body: POP_BODY@ },
    ));
    reveal_strlit("    add # ");
    reveal_strlit("    add 1 ");
    reveal_strlit("    case ");
    reveal_strlit("    goto ");
    reveal_strlit(":");
    reveal_strlit("_done");
    reveal_strlit("_done:");
    let h = seq!['{', 'L', '}'];
    assert(placeholder('L', parts, label) == Some(label));
    assert('1' as u32 == 49 && '0' as u32 == 48);
    assert(placeholder('1', parts, label) == Some(parts[1]));
    let e = Seq::<char>::empty();
    assert(tl[0] =~= e + h + ":"@);
    lemma_inst_line(e, 'L', ":"@, parts, label);
    assert(tl[1] =~= "    case "@ + seq!['{', '1', '}'] + e);
    lemma_inst_line("    case "@, '1', e, parts, label);
    assert(tl[2] =~= "    goto "@ + h + "_done"@);
    lemma_inst_line("    goto "@, 'L', "_done"@, parts, label);
    assert(tl[3] =~= "    goto "@ + h + "_done"@);
    lemma_inst_line("    goto "@, 'L', "_done"@, parts, label);
    assert(tl[4] =~= "    goto "@ + h + "_done"@);
    lemma_inst_line("    goto "@, 'L', "_done"@, parts, label);
    assert(tl[5] =~= e + h + "_done:"@);
    lemma_inst_line(e, 'L', "_done:"@, parts, label);
    let x = builtin_expansion("pop"@, parts, n, c)->Ok_0.lines;
    let ml = pop_lines(label, parts[1]);
    assert(x.len() == 6);
    assert forall|i: int| 0 <= i < 6 implies #[trigger] x[i] =~= ml[i] by {
        assert(x[i] == instantiate(tl[i], parts, label));
    }
    assert(x =~= ml);
}


#[verifier::spinoff_prover]
#[verifier::rlimit(80)]
proof fn lemma_pop_reads(label: Seq<char>, a1: Seq<char>, r1: usize)
    requires
        commands_kept(),
        asm_word(a1),
        asm_word(label),
        asm_word((label + "_done"@)),
        register_of(a1) == Ok::<usize, Seq<char>>(r1),
    ensures
        assembly_of(join(pop_lines(label, a1), "\n"@)) == Ok::<Seq<AsmItem>, Seq<char>>(
            seq![
                AsmItem::Label(label),
                AsmItem::Case(r1),
                AsmItem::Goto((label + "_done"@)),
                AsmItem::Goto((label + "_done"@)),
                AsmItem::Goto((label + "_done"@)),
                AsmItem::Label((label + "_done"@)),
            ],
        ),
{
    let x = pop_lines(label, a1);
    lemma_word_no_newline(a1);
    lemma_word_no_newline(label);
    lemma_word_no_newline((label + "_done"@));
    reveal_strlit(":");
    reveal_strlit("    case ");
    reveal_strlit("    goto ");
    reveal_strlit("    add 1 ");
    reveal_strlit("    add # ");
    lemma_plain_lines(x);
    let items = seq![
            AsmItem::Label(label),
            AsmItem::Case(r1),
            AsmItem::Goto((label + "_done"@)),
            AsmItem::Goto((label + "_done"@)),
            AsmItem::Goto((label + "_done"@)),
            AsmItem::Label((label + "_done"@)),
        ];
    assert forall|i: int| 0 <= i < x.len() implies asm_line((i + 1) as nat, #[trigger] x[i]) == Ok::<
        Option<AsmItem>,
        Seq<char>,
    >(Some(items[i])) by {
        if i == 0 {
            lemma_asm_label(1, label);
        }
        if i == 1 {
            lemma_asm_case(2, a1, r1);
        }
        if i == 2 {
            lemma_asm_goto(3, (label + "_done"@));
        }
        if i == 3 {
            lemma_asm_goto(4, (label + "_done"@));
        }
        if i == 4 {
            lemma_asm_goto(5, (label + "_done"@));
        }
        if i == 5 {
            lemma_asm_label(6, (label + "_done"@));
        }
    }
    lemma_assembly_of_lines(x, items);
}


#[verifier::spinoff_prover]
#[verifier::rlimit(80)]
proof fn lemma_pop_resolves(l: Seq<char>, r1: usize)
    requires
        l != (l + "_done"@),
        l != halt_label() && (l + "_done"@) != halt_label(),
    ensures
        resolved(
            seq![
                    AsmItem::Label(l),
                    AsmItem::Case(r1),
                    AsmItem::Goto((l + "_done"@)),
                    AsmItem::Goto((l + "_done"@)),
                    AsmItem::Goto((l + "_done"@)),
                    AsmItem::Label((l + "_done"@)),
                ],
        ) == Ok::<Seq<Instruction>, Seq<char>>(pop_program(r1)),
{
    let items = seq![
            AsmItem::Label(l),
            AsmItem::Case(r1),
            AsmItem::Goto((l + "_done"@)),
            AsmItem::Goto((l + "_done"@)),
            AsmItem::Goto((l + "_done"@)),
            AsmItem::Label((l + "_done"@)),
        ];
    assert(position(items, 1) == 0);
    assert(position(items, 2) == 1);
    assert(position(items, 3) == 2);
    assert(position(items, 4) == 3);
    assert(position(items, 5) == 4);
    assert(position(items, 6) == 4);
    let m0 = Map::<Seq<char>, nat>::empty();
    let m1 = m0.insert(l, 0);
    let m2 = m1.insert((l + "_done"@), 4);
    assert(labels_upto(items, 0) == Ok::<Map<Seq<char>, nat>, Seq<char>>(m0));
    assert(labels_upto(items, 1) == Ok::<Map<Seq<char>, nat>, Seq<char>>(m1));
    assert(labels_upto(items, 2) == Ok::<Map<Seq<char>, nat>, Seq<char>>(m1));
    assert(labels_upto(items, 3) == Ok::<Map<Seq<char>, nat>, Seq<char>>(m1));
    assert(labels_upto(items, 4) == Ok::<Map<Seq<char>, nat>, Seq<char>>(m1));
    assert(labels_upto(items, 5) == Ok::<Map<Seq<char>, nat>, Seq<char>>(m1));
    assert(labels_upto(items, 6) == Ok::<Map<Seq<char>, nat>, Seq<char>>(m2));
    let t = m2.insert(halt_label(), 4);
    assert(label_table(items) == Ok::<Map<Seq<char>, nat>, Seq<char>>(t));
    assert(t[l] == 0 && t[(l + "_done"@)] == 4);
    assert(t.contains_key(l) && t.contains_key((l + "_done"@)));
    let p = seq![
            Instruction::Case(r1),
            Instruction::Forward(3),
            Instruction::Forward(2),
            Instruction::Forward(1),
        ];
    assert(p =~= pop_program(r1));
    assert(p.take(0) =~= Seq::<Instruction>::empty());
    assert forall|k: int| 0 <= k < 4 implies #[trigger] p.take(k).push(p[k]) =~= p.take(k + 1) by {}
    assert(super::jump((l + "_done"@), 4, 1) == Ok::<Instruction, Seq<char>>(Instruction::Forward(3)));
    assert(super::jump((l + "_done"@), 4, 2) == Ok::<Instruction, Seq<char>>(Instruction::Forward(2)));
    assert(super::jump((l + "_done"@), 4, 3) == Ok::<Instruction, Seq<char>>(Instruction::Forward(1)));
    assert(resolve_upto(items, t, 0) == Ok::<Seq<Instruction>, Seq<char>>(p.take(0)));
    assert(resolve_upto(items, t, 1) == Ok::<Seq<Instruction>, Seq<char>>(p.take(0)));
    assert(resolve_upto(items, t, 2) == Ok::<Seq<Instruction>, Seq<char>>(p.take(1)));
    assert(resolve_upto(items, t, 3) == Ok::<Seq<Instruction>, Seq<char>>(p.take(2)));
    assert(resolve_upto(items, t, 4) == Ok::<Seq<Instruction>, Seq<char>>(p.take(3)));
    assert(resolve_upto(items, t, 5) == Ok::<Seq<Instruction>, Seq<char>>(p.take(4)));
    assert(resolve_upto(items, t, 6) == Ok::<Seq<Instruction>, Seq<char>>(p.take(4)));
    assert(p.take(4) =~= p);
}


/// The template of `pop`, for a call whose arguments name the registers it
/// uses, becomes lines that assemble to `pop_program(r1)`; the call uses up one label
/// number.
pub proof fn lemma_pop_template(parts: Seq<Seq<char>>, n: nat, c: usize, r1: usize)
    requires
        commands_kept(),
        parts.len() == 2,
        asm_word(parts[1]),
        register_of(parts[1]) == Ok::<usize, Seq<char>>(r1),
    ensures
        builtin_expansion("pop"@, parts, n, c) == Ok::<Expansion, Seq<char>>(
            Expansion {
                lines: builtin_expansion("pop"@, parts, n, c)->Ok_0.lines,
                changed: true,
                counter: next_label(c),
            },
        ),
        assembled(join(builtin_expansion("pop"@, parts, n, c)->Ok_0.lines, "\n"@)) == Ok::<
            Seq<Instruction>,
            Seq<char>,
        >(pop_program(r1)),
{
    reveal_strlit("pop");
    reveal_strlit("_done");
    let l = label_text("pop"@, c);
    let e = Seq::<char>::empty();
    assert(l + e =~= l);
    lemma_suffix_word("pop"@, c, e);
    lemma_suffix_word("pop"@, c, "_done"@);
    lemma_suffix_not_halt("pop"@, c, e);
    lemma_suffix_not_halt("pop"@, c, "_done"@);
    assert(e.len() != "_done"@.len());
    lemma_suffix_distinct(l, e, "_done"@);
    lemma_pop_expands(parts, n, c);
    lemma_pop_reads(l, parts[1], r1);
    lemma_pop_resolves(l, r1);
}


/// The lines that a call `copy a1 a2 a3` becomes, with `label` made for the call.
pub open spec fn copy_lines(label: Seq<char>, a1: Seq<char>, a2: Seq<char>, a3: Seq<char>) -> Seq<Seq<char>> {
    seq![
        label + ":"@,
        "    case "@ + a1,
        "    goto "@ + (label + "_restore"@),
        "    goto "@ + (label + "_one"@),
        "    goto "@ + (label + "_hash"@),
        (label + "_one"@) + ":"@,
        "    add 1 "@ + a3,
        "    goto "@ + label,
        (label + "_hash"@) + ":"@,
        "    add # "@ + a3,
        "    goto "@ + label,
        (label + "_restore"@) + ":"@,
        "    case "@ + a3,
        "    goto "@ + (label + "_done"@),
        "    goto "@ + (label + "_r1"@),
        "    goto "@ + (label + "_rh"@),
        (label + "_r1"@) + ":"@,
        "    add 1 "@ + a1,
        "    add 1 "@ + a2,
        "    goto "@ + (label + "_restore"@),
        (label + "_rh"@) + ":"@,
        "    add # "@ + a1,
        "    add # "@ + a2,
        "    goto "@ + (label + "_restore"@),
        (label + "_done"@) + ":"@,
    ]
}


#[verifier::spinoff_prover]
#[verifier::rlimit(80)]
proof fn lemma_copy_expands(parts: Seq<Seq<char>>, n: nat, c: usize)
    requires
        parts.len() == 4,
    ensures
        builtin_expansion("copy"@, parts, n, c) == Ok::<Expansion, Seq<char>>(
            Expansion {
                lines: copy_lines(label_text("cp"@, c), parts[1], parts[2], parts[3]),
                changed: true,
                counter: next_label(c),
            },
        ),
{
    reveal_strlit("cp");
    reveal_strlit("copy");
    let label = label_text("cp"@, c);
    let tl = seq![
        "{L}:"@,
        "    case {1}"@,
        "    goto {L}_restore"@,
        "    goto {L}_one"@,
        "    goto {L}_hash"@,
        "{L}_one:"@,
        "    add 1 {3}"@,
        "    goto {L}"@,
        "{L}_hash:"@,
        "    add # {3}"@,
        "    goto {L}"@,
        "{L}_restore:"@,
        "    case {3}"@,
        "    goto {L}_done"@,
        "    goto {L}_r1"@,
        "    goto {L}_rh"@,
        "{L}_r1:"@,
        "    add 1 {1}"@,
        "    add 1 {2}"@,
        "    goto {L}_restore"@,
        "{L}_rh:"@,
        "    add # {1}"@,
        "    add # {2}"@,
        "    goto {L}_restore"@,
        "{L}_done:"@,
    ];
    reveal_strlit("{L}:\n    case {1}\n    goto {L}_restore\n    goto {L}_one\n    goto {L}_hash\n{L}_one:\n    add 1 {3}\n    goto {L}\n{L}_hash:\n    add # {3}\n    goto {L}\n{L}_restore:\n    case {3}\n    goto {L}_done\n    goto {L}_r1\n    goto {L}_rh\n{L}_r1:\n    add 1 {1}\n    add 1 {2}\n    goto {L}_restore\n{L}_rh:\n    add # {1}\n    add # {2}\n    goto {L}_restore\n{L}_done:");
    reveal_strlit("    add # {1}");
    reveal_strlit("    add # {2}");
    reveal_strlit("    add # {3}");
    reveal_strlit("    add 1 {1}");
    reveal_strlit("    add 1 {2}");
    reveal_strlit("    add 1 {3}");
    reveal_strlit("    case {1}");
    reveal_strlit("    case {3}");
    reveal_strlit("    goto {L}");
    reveal_strlit("    goto {L}_done");
    reveal_strlit("    goto {L}_hash");
    reveal_strlit("    goto {L}_one");
    reveal_strlit("    goto {L}_r1");
    reveal_strlit("    goto {L}_restore");
    reveal_strlit("    goto {L}_rh");
    reveal_strlit("{L}:");
    reveal_strlit("{L}_done:");
    reveal_strlit("{L}_hash:");
    reveal_strlit("{L}_one:");
    reveal_strlit("{L}_r1:");
    reveal_strlit("{L}_restore:");
    reveal_strlit("{L}_rh:");
    reveal_strlit("\n");
    assert(join(tl, "\n"@) =~= COPY_BODY@) by {
        reveal_with_fuel(join, 26);
        assert(tl.take(1) =~= seq![tl[0]]);
    }
    lemma_plain_lines(tl);
    lemma_lines_join(tl);
    reveal_strlit("move");
    reveal_strlit("clear");
    assert("copy"@.len() != "clear"@.len());
    assert("copy"@ != "clear"@);
    reveal_strlit("move");
    assert("copy"@[0] != "move"@[0]);
    assert("copy"@ != "move"@);
    assert(builtin("copy"@) == Some(
        super::templates::Builtin { arity: 3, label_prefix: Some("cp"@), usage: super::templates::COPY_USAGE@, body: COPY_BODY@ },
    ));
    reveal_strlit("    add # ");
    reveal_strlit("    add 1 ");
    reveal_strlit("    case ");
    reveal_strlit("    goto ");
    reveal_strlit(":");
    reveal_strlit("_done");
    reveal_strlit("_done:");
    reveal_strlit("_hash");
    reveal_strlit("_hash:");
    reveal_strlit("_one");
    reveal_strlit("_one:");
    reveal_strlit("_r1");
    reveal_strlit("_r1:");
    reveal_strlit("_restore");
    reveal_strlit("_restore:");
    reveal_strlit("_rh");
    reveal_strlit("_rh:");
    let h = seq!['{', 'L', '}'];
    assert(placeholder('L', parts, label) == Some(label));
    assert('1' as u32 == 49 && '2' as u32 == 50 && '3' as u32 == 51 && '0' as u32 == 48);
    assert(placeholder('1', parts, label) == Some(parts[1]));
    assert(placeholder('2', parts, label) == Some(parts[2]));
    assert(placeholder('3', parts, label) == Some(parts[3]));
    let e = Seq::<char>::empty();
    assert(tl[0] =~= e + h + ":"@);
    lemma_inst_line(e, 'L', ":"@, parts, label);
    assert(tl[1] =~= "    case "@ + seq!['{', '1', '}'] + e);
    lemma_inst_line("    case "@, '1', e, parts, label);
    assert(tl[2] =~= "    goto "@ + h + "_restore"@);
    lemma_inst_line("    goto "@, 'L', "_restore"@, parts, label);
    assert(tl[3] =~= "    goto "@ + h + "_one"@);
    lemma_inst_line("    goto "@, 'L', "_one"@, parts, label);
    assert(tl[4] =~= "    goto "@ + h + "_hash"@);
    lemma_inst_line("    goto "@, 'L', "_hash"@, parts, label);
    assert(tl[5] =~= e + h + "_one:"@);
    lemma_inst_line(e, 'L', "_one:"@, parts, label);
    assert(tl[6] =~= "    add 1 "@ + seq!['{', '3', '}'] + e);
    lemma_inst_line("    add 1 "@, '3', e, parts, label);
    assert(tl[7] =~= "    goto "@ + h + e);
    lemma_inst_line("    goto "@, 'L', e, parts, label);
    assert(tl[8] =~= e + h + "_hash:"@);
    lemma_inst_line(e, 'L', "_hash:"@, parts, label);
    assert(tl[9] =~= "    add # "@ + seq!['{', '3', '}'] + e);
    lemma_inst_line("    add # "@, '3', e, parts, label);
    assert(tl[10] =~= "    goto "@ + h + e);
    lemma_inst_line("    goto "@, 'L', e, parts, label);
    assert(tl[11] =~= e + h + "_restore:"@);
    lemma_inst_line(e, 'L', "_restore:"@, parts, label);
    assert(tl[12] =~= "    case "@ + seq!['{', '3', '}'] + e);
    lemma_inst_line("    case "@, '3', e, parts, label);
    assert(tl[13] =~= "    goto "@ + h + "_done"@);
    lemma_inst_line("    goto "@, 'L', "_done"@, parts, label);
    assert(tl[14] =~= "    goto "@ + h + "_r1"@);
    lemma_inst_line("    goto "@, 'L', "_r1"@, parts, label);
    assert(tl[15] =~= "    goto "@ + h + "_rh"@);
    lemma_inst_line("    goto "@, 'L', "_rh"@, parts, label);
    assert(tl[16] =~= e + h + "_r1:"@);
    lemma_inst_line(e, 'L', "_r1:"@, parts, label);
    assert(tl[17] =~= "    add 1 "@ + seq!['{', '1', '}'] + e);
    lemma_inst_line("    add 1 "@, '1', e, parts, label);
    assert(tl[18] =~= "    add 1 "@ + seq!['{', '2', '}'] + e);
    lemma_inst_line("    add 1 "@, '2', e, parts, label);
    assert(tl[19] =~= "    goto "@ + h + "_restore"@);
    lemma_inst_line("    goto "@, 'L', "_restore"@, parts, label);
    assert(tl[20] =~= e + h + "_rh:"@);
    lemma_inst_line(e, 'L', "_rh:"@, parts, label);
    assert(tl[21] =~= "    add # "@ + seq!['{', '1', '}'] + e);
    lemma_inst_line("    add # "@, '1', e, parts, label);
    assert(tl[22] =~= "    add # "@ + seq!['{', '2', '}'] + e);
    lemma_inst_line("    add # "@, '2', e, parts, label);
    assert(tl[23] =~= "    goto "@ + h + "_restore"@);
    lemma_inst_line("    goto "@, 'L', "_restore"@, parts, label);
    assert(tl[24] =~= e + h + "_done:"@);
    lemma_inst_line(e, 'L', "_done:"@, parts, label);
    let x = builtin_expansion("copy"@, parts, n, c)->Ok_0.lines;
    let ml = copy_lines(label, parts[1], parts[2], parts[3]);
    assert(x.len() == 25);
    assert forall|i: int| 0 <= i < 25 implies #[trigger] x[i] =~= ml[i] by {
        assert(x[i] == instantiate(tl[i], parts, label));
    }
    assert(x =~= ml);
}


#[verifier::spinoff_prover]
#[verifier::rlimit(80)]
proof fn lemma_copy_reads(label: Seq<char>, a1: Seq<char>, a2: Seq<char>, a3: Seq<char>, r1: usize, r2: usize, r3: usize)
    requires
        commands_kept(),
        asm_word(a1),
        asm_word(a2),
        asm_word(a3),
        asm_word(label),
        asm_word((label + "_restore"@)),
        asm_word((label + "_one"@)),
        asm_word((label + "_hash"@)),
        asm_word((label + "_done"@)),
        asm_word((label + "_r1"@)),
        asm_word((label + "_rh"@)),
        register_of(a1) == Ok::<usize, Seq<char>>(r1),
        register_of(a2) == Ok::<usize, Seq<char>>(r2),
        register_of(a3) == Ok::<usize, Seq<char>>(r3),
    ensures
        assembly_of(join(copy_lines(label, a1, a2, a3), "\n"@)) == Ok::<Seq<AsmItem>, Seq<char>>(
            seq![
                AsmItem::Label(label),
                AsmItem::Case(r1),
                AsmItem::Goto((label + "_restore"@)),
                AsmItem::Goto((label + "_one"@)),
                AsmItem::Goto((label + "_hash"@)),
                AsmItem::Label((label + "_one"@)),
                AsmItem::Add1(r3),
                AsmItem::Goto(label),
                AsmItem::Label((label + "_hash"@)),
                AsmItem::AddHash(r3),
                AsmItem::Goto(label),
                AsmItem::Label((label + "_restore"@)),
                AsmItem::Case(r3),
                AsmItem::Goto((label + "_done"@)),
                AsmItem::Goto((label + "_r1"@)),
                AsmItem::Goto((label + "_rh"@)),
                AsmItem::Label((label + "_r1"@)),
                AsmItem::Add1(r1),
                AsmItem::Add1(r2),
                AsmItem::Goto((label + "_restore"@)),
                AsmItem::Label((label + "_rh"@)),
                AsmItem::AddHash(r1),
                AsmItem::AddHash(r2),
                AsmItem::Goto((label + "_restore"@)),
                AsmItem::Label((label + "_done"@)),
            ],
        ),
{
    let x = copy_lines(label, a1, a2, a3);
    lemma_word_no_newline(a1);
    lemma_word_no_newline(a2);
    lemma_word_no_newline(a3);
    lemma_word_no_newline(label);
    lemma_word_no_newline((label + "_restore"@));
    lemma_word_no_newline((label + "_one"@));
    lemma_word_no_newline((label + "_hash"@));
    lemma_word_no_newline((label + "_done"@));
    lemma_word_no_newline((label + "_r1"@));
    lemma_word_no_newline((label + "_rh"@));
    reveal_strlit(":");
    reveal_strlit("    case ");
    reveal_strlit("    goto ");
    reveal_strlit("    add 1 ");
    reveal_strlit("    add # ");
    lemma_plain_lines(x);
    let items = seq![
            AsmItem::Label(label),
            AsmItem::Case(r1),
            AsmItem::Goto((label + "_restore"@)),
            AsmItem::Goto((label + "_one"@)),
            AsmItem::Goto((label + "_hash"@)),
            AsmItem::Label((label + "_one"@)),
            AsmItem::Add1(r3),
            AsmItem::Goto(label),
            AsmItem::Label((label + "_hash"@)),
            AsmItem::AddHash(r3),
            AsmItem::Goto(label),
            AsmItem::Label((label + "_restore"@)),
            AsmItem::Case(r3),
            AsmItem::Goto((label + "_done"@)),
            AsmItem::Goto((label + "_r1"@)),
            AsmItem::Goto((label + "_rh"@)),
            AsmItem::Label((label + "_r1"@)),
            AsmItem::Add1(r1),
            AsmItem::Add1(r2),
            AsmItem::Goto((label + "_restore"@)),
            AsmItem::Label((label + "_rh"@)),
            AsmItem::AddHash(r1),
            AsmItem::AddHash(r2),
            AsmItem::Goto((label + "_restore"@)),
            AsmItem::Label((label + "_done"@)),
        ];
    assert forall|i: int| 0 <= i < x.len() implies asm_line((i + 1) as nat, #[trigger] x[i]) == Ok::<
        Option<AsmItem>,
        Seq<char>,
    >(Some(items[i])) by {
        if i == 0 {
            lemma_asm_label(1, label);
        }
        if i == 1 {
            lemma_asm_case(2, a1, r1);
        }
        if i == 2 {
            lemma_asm_goto(3, (label + "_restore"@));
        }
        if i == 3 {
            lemma_asm_goto(4, (label + "_one"@));
        }
        if i == 4 {
            lemma_asm_goto(5, (label + "_hash"@));
        }
        if i == 5 {
            lemma_asm_label(6, (label + "_one"@));
        }
        if i == 6 {
            lemma_asm_add(7, true, a3, r3);
        }
        if i == 7 {
            lemma_asm_goto(8, label);
        }
        if i == 8 {
            lemma_asm_label(9, (label + "_hash"@));
        }
        if i == 9 {
            lemma_asm_add(10, false, a3, r3);
        }
        if i == 10 {
            lemma_asm_goto(11, label);
        }
        if i == 11 {
            lemma_asm_label(12, (label + "_restore"@));
        }
        if i == 12 {
            lemma_asm_case(13, a3, r3);
        }
        if i == 13 {
            lemma_asm_goto(14, (label + "_done"@));
        }
        if i == 14 {
            lemma_asm_goto(15, (label + "_r1"@));
        }
        if i == 15 {
            lemma_asm_goto(16, (label + "_rh"@));
        }
        if i == 16 {
            lemma_asm_label(17, (label + "_r1"@));
        }
        if i == 17 {
            lemma_asm_add(18, true, a1, r1);
        }
        if i == 18 {
            lemma_asm_add(19, true, a2, r2);
        }
        if i == 19 {
            lemma_asm_goto(20, (label + "_restore"@));
        }
        if i == 20 {
            lemma_asm_label(21, (label + "_rh"@));
        }
        if i == 21 {
            lemma_asm_add(22, false, a1, r1);
        }
        if i == 22 {
            lemma_asm_add(23, false, a2, r2);
        }
        if i == 23 {
            lemma_asm_goto(24, (label + "_restore"@));
        }
        if i == 24 {
            lemma_asm_label(25, (label + "_done"@));
        }
    }
    lemma_assembly_of_lines(x, items);
}


#[verifier::spinoff_prover]
#[verifier::rlimit(80)]
proof fn lemma_copy_resolves(l: Seq<char>, r1: usize, r2: usize, r3: usize)
    requires
        l != (l + "_restore"@) && l != (l + "_one"@) && l != (l + "_hash"@) && l != (l + "_done"@) && l != (l + "_r1"@) && l != (l + "_rh"@) && (l + "_restore"@) != (l + "_one"@) && (l + "_restore"@) != (l + "_hash"@) && (l + "_restore"@) != (l + "_done"@) && (l + "_restore"@) != (l + "_r1"@) && (l + "_restore"@) != (l + "_rh"@) && (l + "_one"@) != (l + "_hash"@) && (l + "_one"@) != (l + "_done"@) && (l + "_one"@) != (l + "_r1"@) && (l + "_one"@) != (l + "_rh"@) && (l + "_hash"@) != (l + "_done"@) && (l + "_hash"@) != (l + "_r1"@) && (l + "_hash"@) != (l + "_rh"@) && (l + "_done"@) != (l + "_r1"@) && (l + "_done"@) != (l + "_rh"@) && (l + "_r1"@) != (l + "_rh"@),
        l != halt_label() && (l + "_restore"@) != halt_label() && (l + "_one"@) != halt_label() && (l + "_hash"@) != halt_label() && (l + "_done"@) != halt_label() && (l + "_r1"@) != halt_label() && (l + "_rh"@) != halt_label(),
    ensures
        resolved(
            seq![
                    AsmItem::Label(l),
                    AsmItem::Case(r1),
                    AsmItem::Goto((l + "_restore"@)),
                    AsmItem::Goto((l + "_one"@)),
                    AsmItem::Goto((l + "_hash"@)),
                    AsmItem::Label((l + "_one"@)),
                    AsmItem::Add1(r3),
                    AsmItem::Goto(l),
                    AsmItem::Label((l + "_hash"@)),
                    AsmItem::AddHash(r3),
                    AsmItem::Goto(l),
                    AsmItem::Label((l + "_restore"@)),
                    AsmItem::Case(r3),
                    AsmItem::Goto((l + "_done"@)),
                    AsmItem::Goto((l + "_r1"@)),
                    AsmItem::Goto((l + "_rh"@)),
                    AsmItem::Label((l + "_r1"@)),
                    AsmItem::Add1(r1),
                    AsmItem::Add1(r2),
                    AsmItem::Goto((l + "_restore"@)),
                    AsmItem::Label((l + "_rh"@)),
                    AsmItem::AddHash(r1),
                    AsmItem::AddHash(r2),
                    AsmItem::Goto((l + "_restore"@)),
                    AsmItem::Label((l + "_done"@)),
                ],
        ) == Ok::<Seq<Instruction>, Seq<char>>(copy_program(r1, r2, r3)),
{
    let items = seq![
            AsmItem::Label(l),
            AsmItem::Case(r1),
            AsmItem::Goto((l + "_restore"@)),
            AsmItem::Goto((l + "_one"@)),
            AsmItem::Goto((l + "_hash"@)),
            AsmItem::Label((l + "_one"@)),
            AsmItem::Add1(r3),
            AsmItem::Goto(l),
            AsmItem::Label((l + "_hash"@)),
            AsmItem::AddHash(r3),
            AsmItem::Goto(l),
            AsmItem::Label((l + "_restore"@)),
            AsmItem::Case(r3),
            AsmItem::Goto((l + "_done"@)),
            AsmItem::Goto((l + "_r1"@)),
            AsmItem::Goto((l + "_rh"@)),
            AsmItem::Label((l + "_r1"@)),
            AsmItem::Add1(r1),
            AsmItem::Add1(r2),
            AsmItem::Goto((l + "_restore"@)),
            AsmItem::Label((l + "_rh"@)),
            AsmItem::AddHash(r1),
            AsmItem::AddHash(r2),
            AsmItem::Goto((l + "_restore"@)),
            AsmItem::Label((l + "_done"@)),
        ];
    assert(position(items, 1) == 0);
    assert(position(items, 2) == 1);
    assert(position(items, 3) == 2);
    assert(position(items, 4) == 3);
    assert(position(items, 5) == 4);
    assert(position(items, 6) == 4);
    assert(position(items, 7) == 5);
    assert(position(items, 8) == 6);
    assert(position(items, 9) == 6);
    assert(position(items, 10) == 7);
    assert(position(items, 11) == 8);
    assert(position(items, 12) == 8);
    assert(position(items, 13) == 9);
    assert(position(items, 14) == 10);
    assert(position(items, 15) == 11);
    assert(position(items, 16) == 12);
    assert(position(items, 17) == 12);
    assert(position(items, 18) == 13);
    assert(position(items, 19) == 14);
    assert(position(items, 20) == 15);
    assert(position(items, 21) == 15);
    assert(position(items, 22) == 16);
    assert(position(items, 23) == 17);
    assert(position(items, 24) == 18);
    assert(position(items, 25) == 18);
    let m0 = Map::<Seq<char>, nat>::empty();
    let m1 = m0.insert(l, 0);
    let m2 = m1.insert((l + "_one"@), 4);
    let m3 = m2.insert((l + "_hash"@), 6);
    let m4 = m3.insert((l + "_restore"@), 8);
    let m5 = m4.insert((l + "_r1"@), 12);
    let m6 = m5.insert((l + "_rh"@), 15);
    let m7 = m6.insert((l + "_done"@), 18);
    assert(labels_upto(items, 0) == Ok::<Map<Seq<char>, nat>, Seq<char>>(m0));
    assert(labels_upto(items, 1) == Ok::<Map<Seq<char>, nat>, Seq<char>>(m1));
    assert(labels_upto(items, 2) == Ok::<Map<Seq<char>, nat>, Seq<char>>(m1));
    assert(labels_upto(items, 3) == Ok::<Map<Seq<char>, nat>, Seq<char>>(m1));
    assert(labels_upto(items, 4) == Ok::<Map<Seq<char>, nat>, Seq<char>>(m1));
    assert(labels_upto(items, 5) == Ok::<Map<Seq<char>, nat>, Seq<char>>(m1));
    assert(labels_upto(items, 6) == Ok::<Map<Seq<char>, nat>, Seq<char>>(m2));
    assert(labels_upto(items, 7) == Ok::<Map<Seq<char>, nat>, Seq<char>>(m2));
    assert(labels_upto(items, 8) == Ok::<Map<Seq<char>, nat>, Seq<char>>(m2));
    assert(labels_upto(items, 9) == Ok::<Map<Seq<char>, nat>, Seq<char>>(m3));
    assert(labels_upto(items, 10) == Ok::<Map<Seq<char>, nat>, Seq<char>>(m3));
    assert(labels_upto(items, 11) == Ok::<Map<Seq<char>, nat>, Seq<char>>(m3));
    assert(labels_upto(items, 12) == Ok::<Map<Seq<char>, nat>, Seq<char>>(m4));
    assert(labels_upto(items, 13) == Ok::<Map<Seq<char>, nat>, Seq<char>>(m4));
    assert(labels_upto(items, 14) == Ok::<Map<Seq<char>, nat>, Seq<char>>(m4));
    assert(labels_upto(items, 15) == Ok::<Map<Seq<char>, nat>, Seq<char>>(m4));
    assert(labels_upto(items, 16) == Ok::<Map<Seq<char>, nat>, Seq<char>>(m4));
    assert(labels_upto(items, 17) == Ok::<Map<Seq<char>, nat>, Seq<char>>(m5));
    assert(labels_upto(items, 18) == Ok::<Map<Seq<char>, nat>, Seq<char>>(m5));
    assert(labels_upto(items, 19) == Ok::<Map<Seq<char>, nat>, Seq<char>>(m5));
    assert(labels_upto(items, 20) == Ok::<Map<Seq<char>, nat>, Seq<char>>(m5));
    assert(labels_upto(items, 21) == Ok::<Map<Seq<char>, nat>, Seq<char>>(m6));
    assert(labels_upto(items, 22) == Ok::<Map<Seq<char>, nat>, Seq<char>>(m6));
    assert(labels_upto(items, 23) == Ok::<Map<Seq<char>, nat>, Seq<char>>(m6));
    assert(labels_upto(items, 24) == Ok::<Map<Seq<char>, nat>, Seq<char>>(m6));
    assert(labels_upto(items, 25) == Ok::<Map<Seq<char>, nat>, Seq<char>>(m7));
    let t = m7.insert(halt_label(), 18);
    assert(label_table(items) == Ok::<Map<Seq<char>, nat>, Seq<char>>(t));
    assert(t[l] == 0 && t[(l + "_restore"@)] == 8 && t[(l + "_one"@)] == 4 && t[(l + "_hash"@)] == 6 && t[(l + "_done"@)] == 18 && t[(l + "_r1"@)] == 12 && t[(l + "_rh"@)] == 15);
    assert(t.contains_key(l) && t.contains_key((l + "_restore"@)) && t.contains_key((l + "_one"@)) && t.contains_key((l + "_hash"@)) && t.contains_key((l + "_done"@)) && t.contains_key((l + "_r1"@)) && t.contains_key((l + "_rh"@)));
    let p = seq![
            Instruction::Case(r1),
            Instruction::Forward(7),
            Instruction::Forward(2),
            Instruction::Forward(3),
            Instruction::AddOne(r3),
            Instruction::Backward(5),
            Instruction::AddHash(r3),
            Instruction::Backward(7),
            Instruction::Case(r3),
            Instruction::Forward(9),
            Instruction::Forward(2),
            Instruction::Forward(4),
            Instruction::AddOne(r1),
            Instruction::AddOne(r2),
            Instruction::Backward(6),
            Instruction::AddHash(r1),
            Instruction::AddHash(r2),
            Instruction::Backward(9),
        ];
    assert(p =~= copy_program(r1, r2, r3));
    assert(p.take(0) =~= Seq::<Instruction>::empty());
    assert forall|k: int| 0 <= k < 18 implies #[trigger] p.take(k).push(p[k]) =~= p.take(k + 1) by {}
    assert(super::jump((l + "_restore"@), 8, 1) == Ok::<Instruction, Seq<char>>(Instruction::Forward(7)));
    assert(super::jump((l + "_one"@), 4, 2) == Ok::<Instruction, Seq<char>>(Instruction::Forward(2)));
    assert(super::jump((l + "_hash"@), 6, 3) == Ok::<Instruction, Seq<char>>(Instruction::Forward(3)));
    assert(super::jump(l, 0, 5) == Ok::<Instruction, Seq<char>>(Instruction::Backward(5)));
    assert(super::jump(l, 0, 7) == Ok::<Instruction, Seq<char>>(Instruction::Backward(7)));
    assert(super::jump((l + "_done"@), 18, 9) == Ok::<Instruction, Seq<char>>(Instruction::Forward(9)));
    assert(super::jump((l + "_r1"@), 12, 10) == Ok::<Instruction, Seq<char>>(Instruction::Forward(2)));
    assert(super::jump((l + "_rh"@), 15, 11) == Ok::<Instruction, Seq<char>>(Instruction::Forward(4)));
    assert(super::jump((l + "_restore"@), 8, 14) == Ok::<Instruction, Seq<char>>(Instruction::Backward(6)));
    assert(super::jump((l + "_restore"@), 8, 17) == Ok::<Instruction, Seq<char>>(Instruction::Backward(9)));
    assert(resolve_upto(items, t, 0) == Ok::<Seq<Instruction>, Seq<char>>(p.take(0)));
    assert(resolve_upto(items, t, 1) == Ok::<Seq<Instruction>, Seq<char>>(p.take(0)));
    assert(resolve_upto(items, t, 2) == Ok::<Seq<Instruction>, Seq<char>>(p.take(1)));
    assert(resolve_upto(items, t, 3) == Ok::<Seq<Instruction>, Seq<char>>(p.take(2)));
    assert(resolve_upto(items, t, 4) == Ok::<Seq<Instruction>, Seq<char>>(p.take(3)));
    assert(resolve_upto(items, t, 5) == Ok::<Seq<Instruction>, Seq<char>>(p.take(4)));
    assert(resolve_upto(items, t, 6) == Ok::<Seq<Instruction>, Seq<char>>(p.take(4)));
    assert(resolve_upto(items, t, 7) == Ok::<Seq<Instruction>, Seq<char>>(p.take(5)));
    assert(resolve_upto(items, t, 8) == Ok::<Seq<Instruction>, Seq<char>>(p.take(6)));
    assert(resolve_upto(items, t, 9) == Ok::<Seq<Instruction>, Seq<char>>(p.take(6)));
    assert(resolve_upto(items, t, 10) == Ok::<Seq<Instruction>, Seq<char>>(p.take(7)));
    assert(resolve_upto(items, t, 11) == Ok::<Seq<Instruction>, Seq<char>>(p.take(8)));
    assert(resolve_upto(items, t, 12) == Ok::<Seq<Instruction>, Seq<char>>(p.take(8)));
    assert(resolve_upto(items, t, 13) == Ok::<Seq<Instruction>, Seq<char>>(p.take(9)));
    assert(resolve_upto(items, t, 14) == Ok::<Seq<Instruction>, Seq<char>>(p.take(10)));
    assert(resolve_upto(items, t, 15) == Ok::<Seq<Instruction>, Seq<char>>(p.take(11)));
    assert(resolve_upto(items, t, 16) == Ok::<Seq<Instruction>, Seq<char>>(p.take(12)));
    assert(resolve_upto(items, t, 17) == Ok::<Seq<Instruction>, Seq<char>>(p.take(12)));
    assert(resolve_upto(items, t, 18) == Ok::<Seq<Instruction>, Seq<char>>(p.take(13)));
    assert(resolve_upto(items, t, 19) == Ok::<Seq<Instruction>, Seq<char>>(p.take(14)));
    assert(resolve_upto(items, t, 20) == Ok::<Seq<Instruction>, Seq<char>>(p.take(15)));
    assert(resolve_upto(items, t, 21) == Ok::<Seq<Instruction>, Seq<char>>(p.take(15)));
    assert(resolve_upto(items, t, 22) == Ok::<Seq<Instruction>, Seq<char>>(p.take(16)));
    assert(resolve_upto(items, t, 23) == Ok::<Seq<Instruction>, Seq<char>>(p.take(17)));
    assert(resolve_upto(items, t, 24) == Ok::<Seq<Instruction>, Seq<char>>(p.take(18)));
    assert(resolve_upto(items, t, 25) == Ok::<Seq<Instruction>, Seq<char>>(p.take(18)));
    assert(p.take(18) =~= p);
}


/// The template of `copy`, for a call whose arguments name the registers it
/// uses, becomes lines that assemble to `copy_program(r1, r2, r3)`; the call uses up one label
/// number.
pub proof fn lemma_copy_template(parts: Seq<Seq<char>>, n: nat, c: usize, r1: usize, r2: usize, r3: usize)
    requires
        commands_kept(),
        parts.len() == 4,
        asm_word(parts[1]),
        asm_word(parts[2]),
        asm_word(parts[3]),
        register_of(parts[1]) == Ok::<usize, Seq<char>>(r1),
        register_of(parts[2]) == Ok::<usize, Seq<char>>(r2),
        register_of(parts[3]) == Ok::<usize, Seq<char>>(r3),
    ensures
        builtin_expansion("copy"@, parts, n, c) == Ok::<Expansion, Seq<char>>(
            Expansion {
                lines: builtin_expansion("copy"@, parts, n, c)->Ok_0.lines,
                changed: true,
                counter: next_label(c),
            },
        ),
        assembled(join(builtin_expansion("copy"@, parts, n, c)->Ok_0.lines, "\n"@)) == Ok::<
            Seq<Instruction>,
            Seq<char>,
        >(copy_program(r1, r2, r3)),
{
    reveal_strlit("cp");
    reveal_strlit("_restore");
    reveal_strlit("_one");
    reveal_strlit("_hash");
    reveal_strlit("_done");
    reveal_strlit("_r1");
    reveal_strlit("_rh");
    let l = label_text("cp"@, c);
    let e = Seq::<char>::empty();
    assert(l + e =~= l);
    lemma_suffix_word("cp"@, c, e);
    lemma_suffix_word("cp"@, c, "_restore"@);
    lemma_suffix_word("cp"@, c, "_one"@);
    lemma_suffix_word("cp"@, c, "_hash"@);
    lemma_suffix_word("cp"@, c, "_done"@);
    lemma_suffix_word("cp"@, c, "_r1"@);
    lemma_suffix_word("cp"@, c, "_rh"@);
    lemma_suffix_not_halt("cp"@, c, e);
    lemma_suffix_not_halt("cp"@, c, "_restore"@);
    lemma_suffix_not_halt("cp"@, c, "_one"@);
    lemma_suffix_not_halt("cp"@, c, "_hash"@);
    lemma_suffix_not_halt("cp"@, c, "_done"@);
    lemma_suffix_not_halt("cp"@, c, "_r1"@);
    lemma_suffix_not_halt("cp"@, c, "_rh"@);
    assert(e.len() != "_restore"@.len());
    lemma_suffix_distinct(l, e, "_restore"@);
    assert(e.len() != "_one"@.len());
    lemma_suffix_distinct(l, e, "_one"@);
    assert(e.len() != "_hash"@.len());
    lemma_suffix_distinct(l, e, "_hash"@);
    assert(e.len() != "_done"@.len());
    lemma_suffix_distinct(l, e, "_done"@);
    assert(e.len() != "_r1"@.len());
    lemma_suffix_distinct(l, e, "_r1"@);
    assert(e.len() != "_rh"@.len());
    lemma_suffix_distinct(l, e, "_rh"@);
    assert("_restore"@.len() != "_one"@.len());
    lemma_suffix_distinct(l, "_restore"@, "_one"@);
    assert("_restore"@.len() != "_hash"@.len());
    lemma_suffix_distinct(l, "_restore"@, "_hash"@);
    assert("_restore"@.len() != "_done"@.len());
    lemma_suffix_distinct(l, "_restore"@, "_done"@);
    assert("_restore"@.len() != "_r1"@.len());
    lemma_suffix_distinct(l, "_restore"@, "_r1"@);
    assert("_restore"@.len() != "_rh"@.len());
    lemma_suffix_distinct(l, "_restore"@, "_rh"@);
    assert("_one"@.len() != "_hash"@.len());
    lemma_suffix_distinct(l, "_one"@, "_hash"@);
    assert("_one"@.len() != "_done"@.len());
    lemma_suffix_distinct(l, "_one"@, "_done"@);
    assert("_one"@.len() != "_r1"@.len());
    lemma_suffix_distinct(l, "_one"@, "_r1"@);
    assert("_one"@.len() != "_rh"@.len());
    lemma_suffix_distinct(l, "_one"@, "_rh"@);
    assert("_hash"@[1] != "_done"@[1]);
    lemma_suffix_distinct(l, "_hash"@, "_done"@);
    assert("_hash"@.len() != "_r1"@.len());
    lemma_suffix_distinct(l, "_hash"@, "_r1"@);
    assert("_hash"@.len() != "_rh"@.len());
    lemma_suffix_distinct(l, "_hash"@, "_rh"@);
    assert("_done"@.len() != "_r1"@.len());
    lemma_suffix_distinct(l, "_done"@, "_r1"@);
    assert("_done"@.len() != "_rh"@.len());
    lemma_suffix_distinct(l, "_done"@, "_rh"@);
    assert("_r1"@[2] != "_rh"@[2]);
    lemma_suffix_distinct(l, "_r1"@, "_rh"@);
    lemma_copy_expands(parts, n, c);
    lemma_copy_reads(l, parts[1], parts[2], parts[3], r1, r2, r3);
    lemma_copy_resolves(l, r1, r2, r3);
}


/// The lines that a call `shift_left a1 a2` becomes, with `label` made for the call.
pub open spec fn shift_left_lines(label: Seq<char>, a1: Seq<char>, a2: Seq<char>) -> Seq<Seq<char>> {
    seq![
        label + ":"@,
        "    case "@ + a1,
        "    goto "@ + (label + "_ins"@),
        "    goto "@ + (label + "_one"@),
        "    goto "@ + (label + "_hash"@),
        (label + "_one"@) + ":"@,
        "    add 1 "@ + a2,
        "    goto "@ + label,
        (label + "_hash"@) + ":"@,
        "    add # "@ + a2,
        "    goto "@ + label,
        (label + "_ins"@) + ":"@,
        "    add # "@ + a1,
        (label + "_rest"@) + ":"@,
        "    case "@ + a2,
        "    goto "@ + (label + "_done"@),
        "    goto "@ + (label + "_r1"@),
        "    goto "@ + (label + "_rh"@),
        (label + "_r1"@) + ":"@,
        "    add 1 "@ + a1,
        "    goto "@ + (label + "_rest"@),
        (label + "_rh"@) + ":"@,
        "    add # "@ + a1,
        "    goto "@ + (label + "_rest"@),
        (label + "_done"@) + ":"@,
    ]
}


#[verifier::spinoff_prover]
#[verifier::rlimit(80)]
proof fn lemma_shift_left_expands(parts: Seq<Seq<char>>, n: nat, c: usize)
    requires
        parts.len() == 3,
    ensures
        builtin_expansion("shift_left"@, parts, n, c) == Ok::<Expansion, Seq<char>>(
            Expansion {
                lines: shift_left_lines(label_text("shl"@, c), parts[1], parts[2]),
                changed: true,
                counter: next_label(c),
            },
        ),
{
    reveal_strlit("shl");
    reveal_strlit("shift_left");
    let label = label_text("shl"@, c);
    let tl = seq![
        "{L}:"@,
        "    case {1}"@,
        "    goto {L}_ins"@,
        "    goto {L}_one"@,
        "    goto {L}_hash"@,
        "{L}_one:"@,
        "    add 1 {2}"@,
        "    goto {L}"@,
        "{L}_hash:"@,
        "    add # {2}"@,
        "    goto {L}"@,
        "{L}_ins:"@,
        "    add # {1}"@,
        "{L}_rest:"@,
        "    case {2}"@,
        "    goto {L}_done"@,
        "    goto {L}_r1"@,
        "    goto {L}_rh"@,
        "{L}_r1:"@,
        "    add 1 {1}"@,
        "    goto {L}_rest"@,
        "{L}_rh:"@,
        "    add # {1}"@,
        "    goto {L}_rest"@,
        "{L}_done:"@,
    ];
    reveal_strlit("{L}:\n    case {1}\n    goto {L}_ins\n    goto {L}_one\n    goto {L}_hash\n{L}_one:\n    add 1 {2}\n    goto {L}\n{L}_hash:\n    add # {2}\n    goto {L}\n{L}_ins:\n    add # {1}\n{L}_rest:\n    case {2}\n    goto {L}_done\n    goto {L}_r1\n    goto {L}_rh\n{L}_r1:\n    add 1 {1}\n    goto {L}_rest\n{L}_rh:\n    add # {1}\n    goto {L}_rest\n{L}_done:");
    reveal_strlit("    add # {1}");
    reveal_strlit("    add # {2}");
    reveal_strlit("    add 1 {1}");
    reveal_strlit("    add 1 {2}");
    reveal_strlit("    case {1}");
    reveal_strlit("    case {2}");
    reveal_strlit("    goto {L}");
    reveal_strlit("    goto {L}_done");
    reveal_strlit("    goto {L}_hash");
    reveal_strlit("    goto {L}_ins");
    reveal_strlit("    goto {L}_one");
    reveal_strlit("    goto {L}_r1");
    reveal_strlit("    goto {L}_rest");
    reveal_strlit("    goto {L}_rh");
    reveal_strlit("{L}:");
    reveal_strlit("{L}_done:");
    reveal_strlit("{L}_hash:");
    reveal_strlit("{L}_ins:");
    reveal_strlit("{L}_one:");
    reveal_strlit("{L}_r1:");
    reveal_strlit("{L}_rest:");
    reveal_strlit("{L}_rh:");
    reveal_strlit("\n");
    assert(join(tl, "\n"@) =~= SHIFT_LEFT_BODY@) by {
        reveal_with_fuel(join, 26);
        assert(tl.take(1) =~= seq![tl[0]]);
    }
    lemma_plain_lines(tl);
    lemma_lines_join(tl);
    reveal_strlit("swap");
    reveal_strlit("pop");
    reveal_strlit("copy");
    reveal_strlit("move");
    reveal_strlit("clear");
    assert("shift_left"@.len() != "clear"@.len());
    assert("shift_left"@ != "clear"@);
    assert("shift_left"@.len() != "move"@.len());
    assert("shift_left"@ != "move"@);
    assert("shift_left"@.len() != "copy"@.len());
    assert("shift_left"@ != "copy"@);
    assert("shift_left"@.len() != "pop"@.len());
    assert("shift_left"@ != "pop"@);
    assert("shift_left"@.len() != "swap"@.len());
    assert("shift_left"@ != "swap"@);
    assert(builtin("shift_left"@) == Some(
        super::templates::Builtin { arity: 2, label_prefix: Some("shl"@), usage: super::templates::SHIFT_LEFT_USAGE@, body: SHIFT_LEFT_BODY@ },
    ));
    reveal_strlit("    add # ");
    reveal_strlit("    add 1 ");
    reveal_strlit("    case ");
    reveal_strlit("    goto ");
    reveal_strlit(":");
    reveal_strlit("_done");
    reveal_strlit("_done:");
    reveal_strlit("_hash");
    reveal_strlit("_hash:");
    reveal_strlit("_ins");
    reveal_strlit("_ins:");
    reveal_strlit("_one");
    reveal_strlit("_one:");
    reveal_strlit("_r1");
    reveal_strlit("_r1:");
    reveal_strlit("_rest");
    reveal_strlit("_rest:");
    reveal_strlit("_rh");
    reveal_strlit("_rh:");
    let h = seq!['{', 'L', '}'];
    assert(placeholder('L', parts, label) == Some(label));
    assert('1' as u32 == 49 && '2' as u32 == 50 && '0' as u32 == 48);
    assert(placeholder('1', parts, label) == Some(parts[1]));
    assert(placeholder('2', parts, label) == Some(parts[2]));
    let e = Seq::<char>::empty();
    assert(tl[0] =~= e + h + ":"@);
    lemma_inst_line(e, 'L', ":"@, parts, label);
    assert(tl[1] =~= "    case "@ + seq!['{', '1', '}'] + e);
    lemma_inst_line("    case "@, '1', e, parts, label);
    assert(tl[2] =~= "    goto "@ + h + "_ins"@);
    lemma_inst_line("    goto "@, 'L', "_ins"@, parts, label);
    assert(tl[3] =~= "    goto "@ + h + "_one"@);
    lemma_inst_line("    goto "@, 'L', "_one"@, parts, label);
    assert(tl[4] =~= "    goto "@ + h + "_hash"@);
    lemma_inst_line("    goto "@, 'L', "_hash"@, parts, label);
    assert(tl[5] =~= e + h + "_one:"@);
    lemma_inst_line(e, 'L', "_one:"@, parts, label);
    assert(tl[6] =~= "    add 1 "@ + seq!['{', '2', '}'] + e);
    lemma_inst_line("    add 1 "@, '2', e, parts, label);
    assert(tl[7] =~= "    goto "@ + h + e);
    lemma_inst_line("    goto "@, 'L', e, parts, label);
    assert(tl[8] =~= e + h + "_hash:"@);
    lemma_inst_line(e, 'L', "_hash:"@, parts, label);
    assert(tl[9] =~= "    add # "@ + seq!['{', '2', '}'] + e);
    lemma_inst_line("    add # "@, '2', e, parts, label);
    assert(tl[10] =~= "    goto "@ + h + e);
    lemma_inst_line("    goto "@, 'L', e, parts, label);
    assert(tl[11] =~= e + h + "_ins:"@);
    lemma_inst_line(e, 'L', "_ins:"@, parts, label);
    assert(tl[12] =~= "    add # "@ + seq!['{', '1', '}'] + e);
    lemma_inst_line("    add # "@, '1', e, parts, label);
    assert(tl[13] =~= e + h + "_rest:"@);
    lemma_inst_line(e, 'L', "_rest:"@, parts, label);
    assert(tl[14] =~= "    case "@ + seq!['{', '2', '}'] + e);
    lemma_inst_line("    case "@, '2', e, parts, label);
    assert(tl[15] =~= "    goto "@ + h + "_done"@);
    lemma_inst_line("    goto "@, 'L', "_done"@, parts, label);
    assert(tl[16] =~= "    goto "@ + h + "_r1"@);
    lemma_inst_line("    goto "@, 'L', "_r1"@, parts, label);
    assert(tl[17] =~= "    goto "@ + h + "_rh"@);
    lemma_inst_line("    goto "@, 'L', "_rh"@, parts, label);
    assert(tl[18] =~= e + h + "_r1:"@);
    lemma_inst_line(e, 'L', "_r1:"@, parts, label);
    assert(tl[19] =~= "    add 1 "@ + seq!['{', '1', '}'] + e);
    lemma_inst_line("    add 1 "@, '1', e, parts, label);
    assert(tl[20] =~= "    goto "@ + h + "_rest"@);
    lemma_inst_line("    goto "@, 'L', "_rest"@, parts, label);
    assert(tl[21] =~= e + h + "_rh:"@);
    lemma_inst_line(e, 'L', "_rh:"@, parts, label);
    assert(tl[22] =~= "    add # "@ + seq!['{', '1', '}'] + e);
    lemma_inst_line("    add # "@, '1', e, parts, label);
    assert(tl[23] =~= "    goto "@ + h + "_rest"@);
    lemma_inst_line("    goto "@, 'L', "_rest"@, parts, label);
    assert(tl[24] =~= e + h + "_done:"@);
    lemma_inst_line(e, 'L', "_done:"@, parts, label);
    let x = builtin_expansion("shift_left"@, parts, n, c)->Ok_0.lines;
    let ml = shift_left_lines(label, parts[1], parts[2]);
    assert(x.len() == 25);
    assert forall|i: int| 0 <= i < 25 implies #[trigger] x[i] =~= ml[i] by {
        assert(x[i] == instantiate(tl[i], parts, label));
    }
    assert(x =~= ml);
}


#[verifier::spinoff_prover]
#[verifier::rlimit(80)]
proof fn lemma_shift_left_reads(label: Seq<char>, a1: Seq<char>, a2: Seq<char>, r1: usize, r2: usize)
    requires
        commands_kept(),
        asm_word(a1),
        asm_word(a2),
        asm_word(label),
        asm_word((label + "_ins"@)),
        asm_word((label + "_one"@)),
        asm_word((label + "_hash"@)),
        asm_word((label + "_rest"@)),
        asm_word((label + "_done"@)),
        asm_word((label + "_r1"@)),
        asm_word((label + "_rh"@)),
        register_of(a1) == Ok::<usize, Seq<char>>(r1),
        register_of(a2) == Ok::<usize, Seq<char>>(r2),
    ensures
        assembly_of(join(shift_left_lines(label, a1, a2), "\n"@)) == Ok::<Seq<AsmItem>, Seq<char>>(
            seq![
                AsmItem::Label(label),
                AsmItem::Case(r1),
                AsmItem::Goto((label + "_ins"@)),
                AsmItem::Goto((label + "_one"@)),
                AsmItem::Goto((label + "_hash"@)),
                AsmItem::Label((label + "_one"@)),
                AsmItem::Add1(r2),
                AsmItem::Goto(label),
                AsmItem::Label((label + "_hash"@)),
                AsmItem::AddHash(r2),
                AsmItem::Goto(label),
                AsmItem::Label((label + "_ins"@)),
                AsmItem::AddHash(r1),
                AsmItem::Label((label + "_rest"@)),
                AsmItem::Case(r2),
                AsmItem::Goto((label + "_done"@)),
                AsmItem::Goto((label + "_r1"@)),
                AsmItem::Goto((label + "_rh"@)),
                AsmItem::Label((label + "_r1"@)),
                AsmItem::Add1(r1),
                AsmItem::Goto((label + "_rest"@)),
                AsmItem::Label((label + "_rh"@)),
                AsmItem::AddHash(r1),
                AsmItem::Goto((label + "_rest"@)),
                AsmItem::Label((label + "_done"@)),
            ],
        ),
{
    let x = shift_left_lines(label, a1, a2);
    lemma_word_no_newline(a1);
    lemma_word_no_newline(a2);
    lemma_word_no_newline(label);
    lemma_word_no_newline((label + "_ins"@));
    lemma_word_no_newline((label + "_one"@));
    lemma_word_no_newline((label + "_hash"@));
    lemma_word_no_newline((label + "_rest"@));
    lemma_word_no_newline((label + "_done"@));
    lemma_word_no_newline((label + "_r1"@));
    lemma_word_no_newline((label + "_rh"@));
    reveal_strlit(":");
    reveal_strlit("    case ");
    reveal_strlit("    goto ");
    reveal_strlit("    add 1 ");
    reveal_strlit("    add # ");
    lemma_plain_lines(x);
    let items = seq![
            AsmItem::Label(label),
            AsmItem::Case(r1),
            AsmItem::Goto((label + "_ins"@)),
            AsmItem::Goto((label + "_one"@)),
            AsmItem::Goto((label + "_hash"@)),
            AsmItem::Label((label + "_one"@)),
            AsmItem::Add1(r2),
            AsmItem::Goto(label),
            AsmItem::Label((label + "_hash"@)),
            AsmItem::AddHash(r2),
            AsmItem::Goto(label),
            AsmItem::Label((label + "_ins"@)),
            AsmItem::AddHash(r1),
            AsmItem::Label((label + "_rest"@)),
            AsmItem::Case(r2),
            AsmItem::Goto((label + "_done"@)),
            AsmItem::Goto((label + "_r1"@)),
            AsmItem::Goto((label + "_rh"@)),
            AsmItem::Label((label + "_r1"@)),
            AsmItem::Add1(r1),
            AsmItem::Goto((label + "_rest"@)),
            AsmItem::Label((label + "_rh"@)),
            AsmItem::AddHash(r1),
            AsmItem::Goto((label + "_rest"@)),
            AsmItem::Label((label + "_done"@)),
        ];
    assert forall|i: int| 0 <= i < x.len() implies asm_line((i + 1) as nat, #[trigger] x[i]) == Ok::<
        Option<AsmItem>,
        Seq<char>,
    >(Some(items[i])) by {
        if i == 0 {
            lemma_asm_label(1, label);
        }
        if i == 1 {
            lemma_asm_case(2, a1, r1);
        }
        if i == 2 {
            lemma_asm_goto(3, (label + "_ins"@));
        }
        if i == 3 {
            lemma_asm_goto(4, (label + "_one"@));
        }
        if i == 4 {
            lemma_asm_goto(5, (label + "_hash"@));
        }
        if i == 5 {
            lemma_asm_label(6, (label + "_one"@));
        }
        if i == 6 {
            lemma_asm_add(7, true, a2, r2);
        }
        if i == 7 {
            lemma_asm_goto(8, label);
        }
        if i == 8 {
            lemma_asm_label(9, (label + "_hash"@));
        }
        if i == 9 {
            lemma_asm_add(10, false, a2, r2);
        }
        if i == 10 {
            lemma_asm_goto(11, label);
        }
        if i == 11 {
            lemma_asm_label(12, (label + "_ins"@));
        }
        if i == 12 {
            lemma_asm_add(13, false, a1, r1);
        }
        if i == 13 {
            lemma_asm_label(14, (label + "_rest"@));
        }
        if i == 14 {
            lemma_asm_case(15, a2, r2);
        }
        if i == 15 {
            lemma_asm_goto(16, (label + "_done"@));
        }
        if i == 16 {
            lemma_asm_goto(17, (label + "_r1"@));
        }
        if i == 17 {
            lemma_asm_goto(18, (label + "_rh"@));
        }
        if i == 18 {
            lemma_asm_label(19, (label + "_r1"@));
        }
        if i == 19 {
            lemma_asm_add(20, true, a1, r1);
        }
        if i == 20 {
            lemma_asm_goto(21, (label + "_rest"@));
        }
        if i == 21 {
            lemma_asm_label(22, (label + "_rh"@));
        }
        if i == 22 {
            lemma_asm_add(23, false, a1, r1);
        }
        if i == 23 {
            lemma_asm_goto(24, (label + "_rest"@));
        }
        if i == 24 {
            lemma_asm_label(25, (label + "_done"@));
        }
    }
    lemma_assembly_of_lines(x, items);
}


#[verifier::spinoff_prover]
#[verifier::rlimit(80)]
proof fn lemma_shift_left_resolves(l: Seq<char>, r1: usize, r2: usize)
    requires
        l != (l + "_ins"@) && l != (l + "_one"@) && l != (l + "_hash"@) && l != (l + "_rest"@) && l != (l + "_done"@) && l != (l + "_r1"@) && l != (l + "_rh"@) && (l + "_ins"@) != (l + "_one"@) && (l + "_ins"@) != (l + "_hash"@) && (l + "_ins"@) != (l + "_rest"@) && (l + "_ins"@) != (l + "_done"@) && (l + "_ins"@) != (l + "_r1"@) && (l + "_ins"@) != (l + "_rh"@) && (l + "_one"@) != (l + "_hash"@) && (l + "_one"@) != (l + "_rest"@) && (l + "_one"@) != (l + "_done"@) && (l + "_one"@) != (l + "_r1"@) && (l + "_one"@) != (l + "_rh"@) && (l + "_hash"@) != (l + "_rest"@) && (l + "_hash"@) != (l + "_done"@) && (l + "_hash"@) != (l + "_r1"@) && (l + "_hash"@) != (l + "_rh"@) && (l + "_rest"@) != (l + "_done"@) && (l + "_rest"@) != (l + "_r1"@) && (l + "_rest"@) != (l + "_rh"@) && (l + "_done"@) != (l + "_r1"@) && (l + "_done"@) != (l + "_rh"@) && (l + "_r1"@) != (l + "_rh"@),
        l != halt_label() && (l + "_ins"@) != halt_label() && (l + "_one"@) != halt_label() && (l + "_hash"@) != halt_label() && (l + "_rest"@) != halt_label() && (l + "_done"@) != halt_label() && (l + "_r1"@) != halt_label() && (l + "_rh"@) != halt_label(),
    ensures
        resolved(
            seq![
                    AsmItem::Label(l),
                    AsmItem::Case(r1),
                    AsmItem::Goto((l + "_ins"@)),
                    AsmItem::Goto((l + "_one"@)),
                    AsmItem::Goto((l + "_hash"@)),
                    AsmItem::Label((l + "_one"@)),
                    AsmItem::Add1(r2),
                    AsmItem::Goto(l),
                    AsmItem::Label((l + "_hash"@)),
                    AsmItem::AddHash(r2),
                    AsmItem::Goto(l),
                    AsmItem::Label((l + "_ins"@)),
                    AsmItem::AddHash(r1),
                    AsmItem::Label((l + "_rest"@)),
                    AsmItem::Case(r2),
                    AsmItem::Goto((l + "_done"@)),
                    AsmItem::Goto((l + "_r1"@)),
                    AsmItem::Goto((l + "_rh"@)),
                    AsmItem::Label((l + "_r1"@)),
                    AsmItem::Add1(r1),
                    AsmItem::Goto((l + "_rest"@)),
                    AsmItem::Label((l + "_rh"@)),
                    AsmItem::AddHash(r1),
                    AsmItem::Goto((l + "_rest"@)),
                    AsmItem::Label((l + "_done"@)),
                ],
        ) == Ok::<Seq<Instruction>, Seq<char>>(shift_left_program(r1, r2)),
{
    let items = seq![
            AsmItem::Label(l),
            AsmItem::Case(r1),
            AsmItem::Goto((l + "_ins"@)),
            AsmItem::Goto((l + "_one"@)),
            AsmItem::Goto((l + "_hash"@)),
            AsmItem::Label((l + "_one"@)),
            AsmItem::Add1(r2),
            AsmItem::Goto(l),
            AsmItem::Label((l + "_hash"@)),
            AsmItem::AddHash(r2),
            AsmItem::Goto(l),
            AsmItem::Label((l + "_ins"@)),
            AsmItem::AddHash(r1),
            AsmItem::Label((l + "_rest"@)),
            AsmItem::Case(r2),
            AsmItem::Goto((l + "_done"@)),
            AsmItem::Goto((l + "_r1"@)),
            AsmItem::Goto((l + "_rh"@)),
            AsmItem::Label((l + "_r1"@)),
            AsmItem::Add1(r1),
            AsmItem::Goto((l + "_rest"@)),
            AsmItem::Label((l + "_rh"@)),
            AsmItem::AddHash(r1),
            AsmItem::Goto((l + "_rest"@)),
            AsmItem::Label((l + "_done"@)),
        ];
    assert(position(items, 1) == 0);
    assert(position(items, 2) == 1);
    assert(position(items, 3) == 2);
    assert(position(items, 4) == 3);
    assert(position(items, 5) == 4);
    assert(position(items, 6) == 4);
    assert(position(items, 7) == 5);
    assert(position(items, 8) == 6);
    assert(position(items, 9) == 6);
    assert(position(items, 10) == 7);
    assert(position(items, 11) == 8);
    assert(position(items, 12) == 8);
    assert(position(items, 13) == 9);
    assert(position(items, 14) == 9);
    assert(position(items, 15) == 10);
    assert(position(items, 16) == 11);
    assert(position(items, 17) == 12);
    assert(position(items, 18) == 13);
    assert(position(items, 19) == 13);
    assert(position(items, 20) == 14);
    assert(position(items, 21) == 15);
    assert(position(items, 22) == 15);
    assert(position(items, 23) == 16);
    assert(position(items, 24) == 17);
    assert(position(items, 25) == 17);
    let m0 = Map::<Seq<char>, nat>::empty();
    let m1 = m0.insert(l, 0);
    let m2 = m1.insert((l + "_one"@), 4);
    let m3 = m2.insert((l + "_hash"@), 6);
    let m4 = m3.insert((l + "_ins"@), 8);
    let m5 = m4.insert((l + "_rest"@), 9);
    let m6 = m5.insert((l + "_r1"@), 13);
    let m7 = m6.insert((l + "_rh"@), 15);
    let m8 = m7.insert((l + "_done"@), 17);
    assert(labels_upto(items, 0) == Ok::<Map<Seq<char>, nat>, Seq<char>>(m0));
    assert(labels_upto(items, 1) == Ok::<Map<Seq<char>, nat>, Seq<char>>(m1));
    assert(labels_upto(items, 2) == Ok::<Map<Seq<char>, nat>, Seq<char>>(m1));
    assert(labels_upto(items, 3) == Ok::<Map<Seq<char>, nat>, Seq<char>>(m1));
    assert(labels_upto(items, 4) == Ok::<Map<Seq<char>, nat>, Seq<char>>(m1));
    assert(labels_upto(items, 5) == Ok::<Map<Seq<char>, nat>, Seq<char>>(m1));
    assert(labels_upto(items, 6) == Ok::<Map<Seq<char>, nat>, Seq<char>>(m2));
    assert(labels_upto(items, 7) == Ok::<Map<Seq<char>, nat>, Seq<char>>(m2));
    assert(labels_upto(items, 8) == Ok::<Map<Seq<char>, nat>, Seq<char>>(m2));
    assert(labels_upto(items, 9) == Ok::<Map<Seq<char>, nat>, Seq<char>>(m3));
    assert(labels_upto(items, 10) == Ok::<Map<Seq<char>, nat>, Seq<char>>(m3));
    assert(labels_upto(items, 11) == Ok::<Map<Seq<char>, nat>, Seq<char>>(m3));
    assert(labels_upto(items, 12) == Ok::<Map<Seq<char>, nat>, Seq<char>>(m4));
    assert(labels_upto(items, 13) == Ok::<Map<Seq<char>, nat>, Seq<char>>(m4));
    assert(labels_upto(items, 14) == Ok::<Map<Seq<char>, nat>, Seq<char>>(m5));
    assert(labels_upto(items, 15) == Ok::<Map<Seq<char>, nat>, Seq<char>>(m5));
    assert(labels_upto(items, 16) == Ok::<Map<Seq<char>, nat>, Seq<char>>(m5));
    assert(labels_upto(items, 17) == Ok::<Map<Seq<char>, nat>, Seq<char>>(m5));
    assert(labels_upto(items, 18) == Ok::<Map<Seq<char>, nat>, Seq<char>>(m5));
    assert(labels_upto(items, 19) == Ok::<Map<Seq<char>, nat>, Seq<char>>(m6));
    assert(labels_upto(items, 20) == Ok::<Map<Seq<char>, nat>, Seq<char>>(m6));
    assert(labels_upto(items, 21) == Ok::<Map<Seq<char>, nat>, Seq<char>>(m6));
    assert(labels_upto(items, 22) == Ok::<Map<Seq<char>, nat>, Seq<char>>(m7));
    assert(labels_upto(items, 23) == Ok::<Map<Seq<char>, nat>, Seq<char>>(m7));
    assert(labels_upto(items, 24) == Ok::<Map<Seq<char>, nat>, Seq<char>>(m7));
    assert(labels_upto(items, 25) == Ok::<Map<Seq<char>, nat>, Seq<char>>(m8));
    let t = m8.insert(halt_label(), 17);
    assert(label_table(items) == Ok::<Map<Seq<char>, nat>, Seq<char>>(t));
    assert(t[l] == 0 && t[(l + "_ins"@)] == 8 && t[(l + "_one"@)] == 4 && t[(l + "_hash"@)] == 6 && t[(l + "_rest"@)] == 9 && t[(l + "_done"@)] == 17 && t[(l + "_r1"@)] == 13 && t[(l + "_rh"@)] == 15);
    assert(t.contains_key(l) && t.contains_key((l + "_ins"@)) && t.contains_key((l + "_one"@)) && t.contains_key((l + "_hash"@)) && t.contains_key((l + "_rest"@)) && t.contains_key((l + "_done"@)) && t.contains_key((l + "_r1"@)) && t.contains_key((l + "_rh"@)));
    let p = seq![
            Instruction::Case(r1),
            Instruction::Forward(7),
            Instruction::Forward(2),
            Instruction::Forward(3),
            Instruction::AddOne(r2),
            Instruction::Backward(5),
            Instruction::AddHash(r2),
            Instruction::Backward(7),
            Instruction::AddHash(r1),
            Instruction::Case(r2),
            Instruction::Forward(7),
            Instruction::Forward(2),
            Instruction::Forward(3),
            Instruction::AddOne(r1),
            Instruction::Backward(5),
            Instruction::AddHash(r1),
            Instruction::Backward(7),
        ];
    assert(p =~= shift_left_program(r1, r2));
    assert(p.take(0) =~= Seq::<Instruction>::empty());
    assert forall|k: int| 0 <= k < 17 implies #[trigger] p.take(k).push(p[k]) =~= p.take(k + 1) by {}
    assert(super::jump((l + "_ins"@), 8, 1) == Ok::<Instruction, Seq<char>>(Instruction::Forward(7)));
    assert(super::jump((l + "_one"@), 4, 2) == Ok::<Instruction, Seq<char>>(Instruction::Forward(2)));
    assert(super::jump((l + "_hash"@), 6, 3) == Ok::<Instruction, Seq<char>>(Instruction::Forward(3)));
    assert(super::jump(l, 0, 5) == Ok::<Instruction, Seq<char>>(Instruction::Backward(5)));
    assert(super::jump(l, 0, 7) == Ok::<Instruction, Seq<char>>(Instruction::Backward(7)));
    assert(super::jump((l + "_done"@), 17, 10) == Ok::<Instruction, Seq<char>>(Instruction::Forward(7)));
    assert(super::jump((l + "_r1"@), 13, 11) == Ok::<Instruction, Seq<char>>(Instruction::Forward(2)));
    assert(super::jump((l + "_rh"@), 15, 12) == Ok::<Instruction, Seq<char>>(Instruction::Forward(3)));
    assert(super::jump((l + "_rest"@), 9, 14) == Ok::<Instruction, Seq<char>>(Instruction::Backward(5)));
    assert(super::jump((l + "_rest"@), 9, 16) == Ok::<Instruction, Seq<char>>(Instruction::Backward(7)));
    assert(resolve_upto(items, t, 0) == Ok::<Seq<Instruction>, Seq<char>>(p.take(0)));
    assert(resolve_upto(items, t, 1) == Ok::<Seq<Instruction>, Seq<char>>(p.take(0)));
    assert(resolve_upto(items, t, 2) == Ok::<Seq<Instruction>, Seq<char>>(p.take(1)));
    assert(resolve_upto(items, t, 3) == Ok::<Seq<Instruction>, Seq<char>>(p.take(2)));
    assert(resolve_upto(items, t, 4) == Ok::<Seq<Instruction>, Seq<char>>(p.take(3)));
    assert(resolve_upto(items, t, 5) == Ok::<Seq<Instruction>, Seq<char>>(p.take(4)));
    assert(resolve_upto(items, t, 6) == Ok::<Seq<Instruction>, Seq<char>>(p.take(4)));
    assert(resolve_upto(items, t, 7) == Ok::<Seq<Instruction>, Seq<char>>(p.take(5)));
    assert(resolve_upto(items, t, 8) == Ok::<Seq<Instruction>, Seq<char>>(p.take(6)));
    assert(resolve_upto(items, t, 9) == Ok::<Seq<Instruction>, Seq<char>>(p.take(6)));
    assert(resolve_upto(items, t, 10) == Ok::<Seq<Instruction>, Seq<char>>(p.take(7)));
    assert(resolve_upto(items, t, 11) == Ok::<Seq<Instruction>, Seq<char>>(p.take(8)));
    assert(resolve_upto(items, t, 12) == Ok::<Seq<Instruction>, Seq<char>>(p.take(8)));
    assert(resolve_upto(items, t, 13) == Ok::<Seq<Instruction>, Seq<char>>(p.take(9)));
    assert(resolve_upto(items, t, 14) == Ok::<Seq<Instruction>, Seq<char>>(p.take(9)));
    assert(resolve_upto(items, t, 15) == Ok::<Seq<Instruction>, Seq<char>>(p.take(10)));
    assert(resolve_upto(items, t, 16) == Ok::<Seq<Instruction>, Seq<char>>(p.take(11)));
    assert(resolve_upto(items, t, 17) == Ok::<Seq<Instruction>, Seq<char>>(p.take(12)));
    assert(resolve_upto(items, t, 18) == Ok::<Seq<Instruction>, Seq<char>>(p.take(13)));
    assert(resolve_upto(items, t, 19) == Ok::<Seq<Instruction>, Seq<char>>(p.take(13)));
    assert(resolve_upto(items, t, 20) == Ok::<Seq<Instruction>, Seq<char>>(p.take(14)));
    assert(resolve_upto(items, t, 21) == Ok::<Seq<Instruction>, Seq<char>>(p.take(15)));
    assert(resolve_upto(items, t, 22) == Ok::<Seq<Instruction>, Seq<char>>(p.take(15)));
    assert(resolve_upto(items, t, 23) == Ok::<Seq<Instruction>, Seq<char>>(p.take(16)));
    assert(resolve_upto(items, t, 24) == Ok::<Seq<Instruction>, Seq<char>>(p.take(17)));
    assert(resolve_upto(items, t, 25) == Ok::<Seq<Instruction>, Seq<char>>(p.take(17)));
    assert(p.take(17) =~= p);
}


/// The template of `shift_left`, for a call whose arguments name the registers it
/// uses, becomes lines that assemble to `shift_left_program(r1, r2)`; the call uses up one label
/// number.
pub proof fn lemma_shift_left_template(parts: Seq<Seq<char>>, n: nat, c: usize, r1: usize, r2: usize)
    requires
        commands_kept(),
        parts.len() == 3,
        asm_word(parts[1]),
        asm_word(parts[2]),
        register_of(parts[1]) == Ok::<usize, Seq<char>>(r1),
        register_of(parts[2]) == Ok::<usize, Seq<char>>(r2),
    ensures
        builtin_expansion("shift_left"@, parts, n, c) == Ok::<Expansion, Seq<char>>(
            Expansion {
                lines: builtin_expansion("shift_left"@, parts, n, c)->Ok_0.lines,
                changed: true,
                counter: next_label(c),
            },
        ),
        assembled(join(builtin_expansion("shift_left"@, parts, n, c)->Ok_0.lines, "\n"@)) == Ok::<
            Seq<Instruction>,
            Seq<char>,
        >(shift_left_program(r1, r2)),
{
    reveal_strlit("shl");
    reveal_strlit("_ins");
    reveal_strlit("_one");
    reveal_strlit("_hash");
    reveal_strlit("_rest");
    reveal_strlit("_done");
    reveal_strlit("_r1");
    reveal_strlit("_rh");
    let l = label_text("shl"@, c);
    let e = Seq::<char>::empty();
    assert(l + e =~= l);
    lemma_suffix_word("shl"@, c, e);
    lemma_suffix_word("shl"@, c, "_ins"@);
    lemma_suffix_word("shl"@, c, "_one"@);
    lemma_suffix_word("shl"@, c, "_hash"@);
    lemma_suffix_word("shl"@, c, "_rest"@);
    lemma_suffix_word("shl"@, c, "_done"@);
    lemma_suffix_word("shl"@, c, "_r1"@);
    lemma_suffix_word("shl"@, c, "_rh"@);
    lemma_suffix_not_halt("shl"@, c, e);
    lemma_suffix_not_halt("shl"@, c, "_ins"@);
    lemma_suffix_not_halt("shl"@, c, "_one"@);
    lemma_suffix_not_halt("shl"@, c, "_hash"@);
    lemma_suffix_not_halt("shl"@, c, "_rest"@);
    lemma_suffix_not_halt("shl"@, c, "_done"@);
    lemma_suffix_not_halt("shl"@, c, "_r1"@);
    lemma_suffix_not_halt("shl"@, c, "_rh"@);
    assert(e.len() != "_ins"@.len());
    lemma_suffix_distinct(l, e, "_ins"@);
    assert(e.len() != "_one"@.len());
    lemma_suffix_distinct(l, e, "_one"@);
    assert(e.len() != "_hash"@.len());
    lemma_suffix_distinct(l, e, "_hash"@);
    assert(e.len() != "_rest"@.len());
    lemma_suffix_distinct(l, e, "_rest"@);
    assert(e.len() != "_done"@.len());
    lemma_suffix_distinct(l, e, "_done"@);
    assert(e.len() != "_r1"@.len());
    lemma_suffix_distinct(l, e, "_r1"@);
    assert(e.len() != "_rh"@.len());
    lemma_suffix_distinct(l, e, "_rh"@);
    assert("_ins"@[1] != "_one"@[1]);
    lemma_suffix_distinct(l, "_ins"@, "_one"@);
    assert("_ins"@.len() != "_hash"@.len());
    lemma_suffix_distinct(l, "_ins"@, "_hash"@);
    assert("_ins"@.len() != "_rest"@.len());
    lemma_suffix_distinct(l, "_ins"@, "_rest"@);
    assert("_ins"@.len() != "_done"@.len());
    lemma_suffix_distinct(l, "_ins"@, "_done"@);
    assert("_ins"@.len() != "_r1"@.len());
    lemma_suffix_distinct(l, "_ins"@, "_r1"@);
    assert("_ins"@.len() != "_rh"@.len());
    lemma_suffix_distinct(l, "_ins"@, "_rh"@);
    assert("_one"@.len() != "_hash"@.len());
    lemma_suffix_distinct(l, "_one"@, "_hash"@);
    assert("_one"@.len() != "_rest"@.len());
    lemma_suffix_distinct(l, "_one"@, "_rest"@);
    assert("_one"@.len() != "_done"@.len());
    lemma_suffix_distinct(l, "_one"@, "_done"@);
    assert("_one"@.len() != "_r1"@.len());
    lemma_suffix_distinct(l, "_one"@, "_r1"@);
    assert("_one"@.len() != "_rh"@.len());
    lemma_suffix_distinct(l, "_one"@, "_rh"@);
    assert("_hash"@[1] != "_rest"@[1]);
    lemma_suffix_distinct(l, "_hash"@, "_rest"@);
    assert("_hash"@[1] != "_done"@[1]);
    lemma_suffix_distinct(l, "_hash"@, "_done"@);
    assert("_hash"@.len() != "_r1"@.len());
    lemma_suffix_distinct(l, "_hash"@, "_r1"@);
    assert("_hash"@.len() != "_rh"@.len());
    lemma_suffix_distinct(l, "_hash"@, "_rh"@);
    assert("_rest"@[1] != "_done"@[1]);
    lemma_suffix_distinct(l, "_rest"@, "_done"@);
    assert("_rest"@.len() != "_r1"@.len());
    lemma_suffix_distinct(l, "_rest"@, "_r1"@);
    assert("_rest"@.len() != "_rh"@.len());
    lemma_suffix_distinct(l, "_rest"@, "_rh"@);
    assert("_done"@.len() != "_r1"@.len());
    lemma_suffix_distinct(l, "_done"@, "_r1"@);
    assert("_done"@.len() != "_rh"@.len());
    lemma_suffix_distinct(l, "_done"@, "_rh"@);
    assert("_r1"@[2] != "_rh"@[2]);
    lemma_suffix_distinct(l, "_r1"@, "_rh"@);
    lemma_shift_left_expands(parts, n, c);
    lemma_shift_left_reads(l, parts[1], parts[2], r1, r2);
    lemma_shift_left_resolves(l, r1, r2);
}




/// The lines that a call `increment a1 a2` becomes, with `label` made for the call.
pub open spec fn increment_lines(label: Seq<char>, a1: Seq<char>, a2: Seq<char>) -> Seq<Seq<char>> {
    seq![
        label + ":"@,
        "    case "@ + a1,
        "    goto "@ + (label + "_add1"@),
        "    goto "@ + (label + "_one"@),
        "    goto "@ + (label + "_hash"@),
        (label + "_one"@) + ":"@,
        "    add # "@ + a2,
        "    goto "@ + label,
        (label + "_hash"@) + ":"@,
        "    add 1 "@ + a2,
        "    goto "@ + (label + "_copy"@),
        (label + "_add1"@) + ":"@,
        "    add 1 "@ + a2,
        (label + "_copy"@) + ":"@,
        "    case "@ + a1,
        "    goto "@ + (label + "_rest"@),
        "    goto "@ + (label + "_c1"@),
        "    goto "@ + (label + "_ch"@),
        (label + "_c1"@) + ":"@,
        "    add 1 "@ + a2,
        "    goto "@ + (label + "_copy"@),
        (label + "_ch"@) + ":"@,
        "    add # "@ + a2,
        "    goto "@ + (label + "_copy"@),
        (label + "_rest"@) + ":"@,
        "    case "@ + a2,
        "    goto "@ + (label + "_done"@),
        "    goto "@ + (label + "_r1"@),
        "    goto "@ + (label + "_rh"@),
        (label + "_r1"@) + ":"@,
        "    add 1 "@ + a1,
        "    goto "@ + (label + "_rest"@),
        (label + "_rh"@) + ":"@,
        "    add # "@ + a1,
        "    goto "@ + (label + "_rest"@),
        (label + "_done"@) + ":"@,
    ]
}


#[verifier::spinoff_prover]
#[verifier::rlimit(80)]
proof fn lemma_increment_expands(parts: Seq<Seq<char>>, n: nat, c: usize)
    requires
        parts.len() == 3,
    ensures
        builtin_expansion("increment"@, parts, n, c) == Ok::<Expansion, Seq<char>>(
            Expansion {
                lines: increment_lines(label_text("inc"@, c), parts[1], parts[2]),
                changed: true,
                counter: next_label(c),
            },
        ),
{
    reveal_strlit("inc");
    reveal_strlit("increment");
    let label = label_text("inc"@, c);
    let tl = seq![
        "{L}:"@,
        "    case {1}"@,
        "    goto {L}_add1"@,
        "    goto {L}_one"@,
        "    goto {L}_hash"@,
        "{L}_one:"@,
        "    add # {2}"@,
        "    goto {L}"@,
        "{L}_hash:"@,
        "    add 1 {2}"@,
        "    goto {L}_copy"@,
        "{L}_add1:"@,
        "    add 1 {2}"@,
        "{L}_copy:"@,
        "    case {1}"@,
        "    goto {L}_rest"@,
        "    goto {L}_c1"@,
        "    goto {L}_ch"@,
        "{L}_c1:"@,
        "    add 1 {2}"@,
        "    goto {L}_copy"@,
        "{L}_ch:"@,
        "    add # {2}"@,
        "    goto {L}_copy"@,
        "{L}_rest:"@,
        "    case {2}"@,
        "    goto {L}_done"@,
        "    goto {L}_r1"@,
        "    goto {L}_rh"@,
        "{L}_r1:"@,
        "    add 1 {1}"@,
        "    goto {L}_rest"@,
        "{L}_rh:"@,
        "    add # {1}"@,
        "    goto {L}_rest"@,
        "{L}_done:"@,
    ];
    reveal_strlit("{L}:\n    case {1}\n    goto {L}_add1\n    goto {L}_one\n    goto {L}_hash\n{L}_one:\n    add # {2}\n    goto {L}\n{L}_hash:\n    add 1 {2}\n    goto {L}_copy\n{L}_add1:\n    add 1 {2}\n{L}_copy:\n    case {1}\n    goto {L}_rest\n    goto {L}_c1\n    goto {L}_ch\n{L}_c1:\n    add 1 {2}\n    goto {L}_copy\n{L}_ch:\n    add # {2}\n    goto {L}_copy\n{L}_rest:\n    case {2}\n    goto {L}_done\n    goto {L}_r1\n    goto {L}_rh\n{L}_r1:\n    add 1 {1}\n    goto {L}_rest\n{L}_rh:\n    add # {1}\n    goto {L}_rest\n{L}_done:");
    reveal_strlit("    add # {1}");
    reveal_strlit("    add # {2}");
    reveal_strlit("    add 1 {1}");
    reveal_strlit("    add 1 {2}");
    reveal_strlit("    case {1}");
    reveal_strlit("    case {2}");
    reveal_strlit("    goto {L}");
    reveal_strlit("    goto {L}_add1");
    reveal_strlit("    goto {L}_c1");
    reveal_strlit("    goto {L}_ch");
    reveal_strlit("    goto {L}_copy");
    reveal_strlit("    goto {L}_done");
    reveal_strlit("    goto {L}_hash");
    reveal_strlit("    goto {L}_one");
    reveal_strlit("    goto {L}_r1");
    reveal_strlit("    goto {L}_rest");
    reveal_strlit("    goto {L}_rh");
    reveal_strlit("{L}:");
    reveal_strlit("{L}_add1:");
    reveal_strlit("{L}_c1:");
    reveal_strlit("{L}_ch:");
    reveal_strlit("{L}_copy:");
    reveal_strlit("{L}_done:");
    reveal_strlit("{L}_hash:");
    reveal_strlit("{L}_one:");
    reveal_strlit("{L}_r1:");
    reveal_strlit("{L}_rest:");
    reveal_strlit("{L}_rh:");
    reveal_strlit("\n");
    assert(join(tl, "\n"@) =~= INCREMENT_BODY@) by {
        reveal_with_fuel(join, 37);
        assert(tl.take(1) =~= seq![tl[0]]);
    }
    lemma_plain_lines(tl);
    lemma_lines_join(tl);
    reveal_strlit("shift_right");
    reveal_strlit("shift_left");
    reveal_strlit("swap");
    reveal_strlit("pop");
    reveal_strlit("copy");
    reveal_strlit("move");
    reveal_strlit("clear");
    assert("increment"@.len() != "clear"@.len());
    assert("increment"@ != "clear"@);
    assert("increment"@.len() != "move"@.len());
    assert("increment"@ != "move"@);
    assert("increment"@.len() != "copy"@.len());
    assert("increment"@ != "copy"@);
    assert("increment"@.len() != "pop"@.len());
    assert("increment"@ != "pop"@);
    assert("increment"@.len() != "swap"@.len());
    assert("increment"@ != "swap"@);
    assert("increment"@.len() != "shift_left"@.len());
    assert("increment"@ != "shift_left"@);
    assert("increment"@.len() != "shift_right"@.len());
    assert("increment"@ != "shift_right"@);
    assert(builtin("increment"@) == Some(
        super::templates::Builtin { arity: 2, label_prefix: Some("inc"@), usage: super::templates::INCREMENT_USAGE@, body: INCREMENT_BODY@ },
    ));
    reveal_strlit("    add # ");
    reveal_strlit("    add 1 ");
    reveal_strlit("    case ");
    reveal_strlit("    goto ");
    reveal_strlit(":");
    reveal_strlit("_add1");
    reveal_strlit("_add1:");
    reveal_strlit("_c1");
    reveal_strlit("_c1:");
    reveal_strlit("_ch");
    reveal_strlit("_ch:");
    reveal_strlit("_copy");
    reveal_strlit("_copy:");
    reveal_strlit("_done");
    reveal_strlit("_done:");
    reveal_strlit("_hash");
    reveal_strlit("_hash:");
    reveal_strlit("_one");
    reveal_strlit("_one:");
    reveal_strlit("_r1");
    reveal_strlit("_r1:");
    reveal_strlit("_rest");
    reveal_strlit("_rest:");
    reveal_strlit("_rh");
    reveal_strlit("_rh:");
    let h = seq!['{', 'L', '}'];
    assert(placeholder('L', parts, label) == Some(label));
    assert('1' as u32 == 49 && '2' as u32 == 50 && '0' as u32 == 48);
    assert(placeholder('1', parts, label) == Some(parts[1]));
    assert(placeholder('2', parts, label) == Some(parts[2]));
    let e = Seq::<char>::empty();
    assert(tl[0] =~= e + h + ":"@);
    lemma_inst_line(e, 'L', ":"@, parts, label);
    assert(tl[1] =~= "    case "@ + seq!['{', '1', '}'] + e);
    lemma_inst_line("    case "@, '1', e, parts, label);
    assert(tl[2] =~= "    goto "@ + h + "_add1"@);
    lemma_inst_line("    goto "@, 'L', "_add1"@, parts, label);
    assert(tl[3] =~= "    goto "@ + h + "_one"@);
    lemma_inst_line("    goto "@, 'L', "_one"@, parts, label);
    assert(tl[4] =~= "    goto "@ + h + "_hash"@);
    lemma_inst_line("    goto "@, 'L', "_hash"@, parts, label);
    assert(tl[5] =~= e + h + "_one:"@);
    lemma_inst_line(e, 'L', "_one:"@, parts, label);
    assert(tl[6] =~= "    add # "@ + seq!['{', '2', '}'] + e);
    lemma_inst_line("    add # "@, '2', e, parts, label);
    assert(tl[7] =~= "    goto "@ + h + e);
    lemma_inst_line("    goto "@, 'L', e, parts, label);
    assert(tl[8] =~= e + h + "_hash:"@);
    lemma_inst_line(e, 'L', "_hash:"@, parts, label);
    assert(tl[9] =~= "    add 1 "@ + seq!['{', '2', '}'] + e);
    lemma_inst_line("    add 1 "@, '2', e, parts, label);
    assert(tl[10] =~= "    goto "@ + h + "_copy"@);
    lemma_inst_line("    goto "@, 'L', "_copy"@, parts, label);
    assert(tl[11] =~= e + h + "_add1:"@);
    lemma_inst_line(e, 'L', "_add1:"@, parts, label);
    assert(tl[12] =~= "    add 1 "@ + seq!['{', '2', '}'] + e);
    lemma_inst_line("    add 1 "@, '2', e, parts, label);
    assert(tl[13] =~= e + h + "_copy:"@);
    lemma_inst_line(e, 'L', "_copy:"@, parts, label);
    assert(tl[14] =~= "    case "@ + seq!['{', '1', '}'] + e);
    lemma_inst_line("    case "@, '1', e, parts, label);
    assert(tl[15] =~= "    goto "@ + h + "_rest"@);
    lemma_inst_line("    goto "@, 'L', "_rest"@, parts, label);
    assert(tl[16] =~= "    goto "@ + h + "_c1"@);
    lemma_inst_line("    goto "@, 'L', "_c1"@, parts, label);
    assert(tl[17] =~= "    goto "@ + h + "_ch"@);
    lemma_inst_line("    goto "@, 'L', "_ch"@, parts, label);
    assert(tl[18] =~= e + h + "_c1:"@);
    lemma_inst_line(e, 'L', "_c1:"@, parts, label);
    assert(tl[19] =~= "    add 1 "@ + seq!['{', '2', '}'] + e);
    lemma_inst_line("    add 1 "@, '2', e, parts, label);
    assert(tl[20] =~= "    goto "@ + h + "_copy"@);
    lemma_inst_line("    goto "@, 'L', "_copy"@, parts, label);
    assert(tl[21] =~= e + h + "_ch:"@);
    lemma_inst_line(e, 'L', "_ch:"@, parts, label);
    assert(tl[22] =~= "    add # "@ + seq!['{', '2', '}'] + e);
    lemma_inst_line("    add # "@, '2', e, parts, label);
    assert(tl[23] =~= "    goto "@ + h + "_copy"@);
    lemma_inst_line("    goto "@, 'L', "_copy"@, parts, label);
    assert(tl[24] =~= e + h + "_rest:"@);
    lemma_inst_line(e, 'L', "_rest:"@, parts, label);
    assert(tl[25] =~= "    case "@ + seq!['{', '2', '}'] + e);
    lemma_inst_line("    case "@, '2', e, parts, label);
    assert(tl[26] =~= "    goto "@ + h + "_done"@);
    lemma_inst_line("    goto "@, 'L', "_done"@, parts, label);
    assert(tl[27] =~= "    goto "@ + h + "_r1"@);
    lemma_inst_line("    goto "@, 'L', "_r1"@, parts, label);
    assert(tl[28] =~= "    goto "@ + h + "_rh"@);
    lemma_inst_line("    goto "@, 'L', "_rh"@, parts, label);
    assert(tl[29] =~= e + h + "_r1:"@);
    lemma_inst_line(e, 'L', "_r1:"@, parts, label);
    assert(tl[30] =~= "    add 1 "@ + seq!['{', '1', '}'] + e);
    lemma_inst_line("    add 1 "@, '1', e, parts, label);
    assert(tl[31] =~= "    goto "@ + h + "_rest"@);
    lemma_inst_line("    goto "@, 'L', "_rest"@, parts, label);
    assert(tl[32] =~= e + h + "_rh:"@);
    lemma_inst_line(e, 'L', "_rh:"@, parts, label);
    assert(tl[33] =~= "    add # "@ + seq!['{', '1', '}'] + e);
    lemma_inst_line("    add # "@, '1', e, parts, label);
    assert(tl[34] =~= "    goto "@ + h + "_rest"@);
    lemma_inst_line("    goto "@, 'L', "_rest"@, parts, label);
    assert(tl[35] =~= e + h + "_done:"@);
    lemma_inst_line(e, 'L', "_done:"@, parts, label);
    let x = builtin_expansion("increment"@, parts, n, c)->Ok_0.lines;
    let ml = increment_lines(label, parts[1], parts[2]);
    assert(x.len() == 36);
    assert forall|i: int| 0 <= i < 36 implies #[trigger] x[i] =~= ml[i] by {
        assert(x[i] == instantiate(tl[i], parts, label));
    }
    assert(x =~= ml);
}


/// The assembly items that the lines of a call `increment` read as.
pub open spec fn increment_items(label: Seq<char>, r1: usize, r2: usize) -> Seq<AsmItem> {
    seq![
        AsmItem::Label(label),
        AsmItem::Case(r1),
        AsmItem::Goto((label + "_add1"@)),
        AsmItem::Goto((label + "_one"@)),
        AsmItem::Goto((label + "_hash"@)),
        AsmItem::Label((label + "_one"@)),
        AsmItem::AddHash(r2),
        AsmItem::Goto(label),
        AsmItem::Label((label + "_hash"@)),
        AsmItem::Add1(r2),
        AsmItem::Goto((label + "_copy"@)),
        AsmItem::Label((label + "_add1"@)),
        AsmItem::Add1(r2),
        AsmItem::Label((label + "_copy"@)),
        AsmItem::Case(r1),
        AsmItem::Goto((label + "_rest"@)),
        AsmItem::Goto((label + "_c1"@)),
        AsmItem::Goto((label + "_ch"@)),
        AsmItem::Label((label + "_c1"@)),
        AsmItem::Add1(r2),
        AsmItem::Goto((label + "_copy"@)),
        AsmItem::Label((label + "_ch"@)),
        AsmItem::AddHash(r2),
        AsmItem::Goto((label + "_copy"@)),
        AsmItem::Label((label + "_rest"@)),
        AsmItem::Case(r2),
        AsmItem::Goto((label + "_done"@)),
        AsmItem::Goto((label + "_r1"@)),
        AsmItem::Goto((label + "_rh"@)),
        AsmItem::Label((label + "_r1"@)),
        AsmItem::Add1(r1),
        AsmItem::Goto((label + "_rest"@)),
        AsmItem::Label((label + "_rh"@)),
        AsmItem::AddHash(r1),
        AsmItem::Goto((label + "_rest"@)),
        AsmItem::Label((label + "_done"@)),
    ]
}


#[verifier::spinoff_prover]
#[verifier::rlimit(80)]
proof fn lemma_increment_reads_0(label: Seq<char>, a1: Seq<char>, a2: Seq<char>, r1: usize, r2: usize)
    requires
        commands_kept(),
        asm_word(a1),
        asm_word(a2),
        asm_word(label),
        asm_word((label + "_add1"@)),
        asm_word((label + "_one"@)),
        asm_word((label + "_hash"@)),
        asm_word((label + "_copy"@)),
        asm_word((label + "_rest"@)),
        asm_word((label + "_c1"@)),
        asm_word((label + "_ch"@)),
        asm_word((label + "_done"@)),
        asm_word((label + "_r1"@)),
        asm_word((label + "_rh"@)),
        register_of(a1) == Ok::<usize, Seq<char>>(r1),
        register_of(a2) == Ok::<usize, Seq<char>>(r2),
    ensures
        forall|i: int|
            0 <= i < 10 ==> asm_line((i + 1) as nat, #[trigger] increment_lines(label, a1, a2)[i]) == Ok::<
                Option<AsmItem>,
                Seq<char>,
            >(Some(increment_items(label, r1, r2)[i])),
{
    let x = increment_lines(label, a1, a2);
    let items = increment_items(label, r1, r2);
    reveal_strlit(":");
    reveal_strlit("    case ");
    reveal_strlit("    goto ");
    reveal_strlit("    add 1 ");
    reveal_strlit("    add # ");
    assert forall|i: int| 0 <= i < 10 implies asm_line((i + 1) as nat, #[trigger] x[i]) == Ok::<
        Option<AsmItem>,
        Seq<char>,
    >(Some(items[i])) by {
        if i == 0 {
            lemma_asm_label(1, label);
        }
        if i == 1 {
            lemma_asm_case(2, a1, r1);
        }
        if i == 2 {
            lemma_asm_goto(3, (label + "_add1"@));
        }
        if i == 3 {
            lemma_asm_goto(4, (label + "_one"@));
        }
        if i == 4 {
            lemma_asm_goto(5, (label + "_hash"@));
        }
        if i == 5 {
            lemma_asm_label(6, (label + "_one"@));
        }
        if i == 6 {
            lemma_asm_add(7, false, a2, r2);
        }
        if i == 7 {
            lemma_asm_goto(8, label);
        }
        if i == 8 {
            lemma_asm_label(9, (label + "_hash"@));
        }
        if i == 9 {
            lemma_asm_add(10, true, a2, r2);
        }
    }
}


#[verifier::spinoff_prover]
#[verifier::rlimit(80)]
proof fn lemma_increment_reads_1(label: Seq<char>, a1: Seq<char>, a2: Seq<char>, r1: usize, r2: usize)
    requires
        commands_kept(),
        asm_word(a1),
        asm_word(a2),
        asm_word(label),
        asm_word((label + "_add1"@)),
        asm_word((label + "_one"@)),
        asm_word((label + "_hash"@)),
        asm_word((label + "_copy"@)),
        asm_word((label + "_rest"@)),
        asm_word((label + "_c1"@)),
        asm_word((label + "_ch"@)),
        asm_word((label + "_done"@)),
        asm_word((label + "_r1"@)),
        asm_word((label + "_rh"@)),
        register_of(a1) == Ok::<usize, Seq<char>>(r1),
        register_of(a2) == Ok::<usize, Seq<char>>(r2),
    ensures
        forall|i: int|
            10 <= i < 20 ==> asm_line((i + 1) as nat, #[trigger] increment_lines(label, a1, a2)[i]) == Ok::<
                Option<AsmItem>,
                Seq<char>,
            >(Some(increment_items(label, r1, r2)[i])),
{
    let x = increment_lines(label, a1, a2);
    let items = increment_items(label, r1, r2);
    reveal_strlit(":");
    reveal_strlit("    case ");
    reveal_strlit("    goto ");
    reveal_strlit("    add 1 ");
    reveal_strlit("    add # ");
    assert forall|i: int| 10 <= i < 20 implies asm_line((i + 1) as nat, #[trigger] x[i]) == Ok::<
        Option<AsmItem>,
        Seq<char>,
    >(Some(items[i])) by {
        if i == 10 {
            lemma_asm_goto(11, (label + "_copy"@));
        }
        if i == 11 {
            lemma_asm_label(12, (label + "_add1"@));
        }
        if i == 12 {
            lemma_asm_add(13, true, a2, r2);
        }
        if i == 13 {
            lemma_asm_label(14, (label + "_copy"@));
        }
        if i == 14 {
            lemma_asm_case(15, a1, r1);
        }
        if i == 15 {
            lemma_asm_goto(16, (label + "_rest"@));
        }
        if i == 16 {
            lemma_asm_goto(17, (label + "_c1"@));
        }
        if i == 17 {
            lemma_asm_goto(18, (label + "_ch"@));
        }
        if i == 18 {
            lemma_asm_label(19, (label + "_c1"@));
        }
        if i == 19 {
            lemma_asm_add(20, true, a2, r2);
        }
    }
}


#[verifier::spinoff_prover]
#[verifier::rlimit(80)]
proof fn lemma_increment_reads_2(label: Seq<char>, a1: Seq<char>, a2: Seq<char>, r1: usize, r2: usize)
    requires
        commands_kept(),
        asm_word(a1),
        asm_word(a2),
        asm_word(label),
        asm_word((label + "_add1"@)),
        asm_word((label + "_one"@)),
        asm_word((label + "_hash"@)),
        asm_word((label + "_copy"@)),
        asm_word((label + "_rest"@)),
        asm_word((label + "_c1"@)),
        asm_word((label + "_ch"@)),
        asm_word((label + "_done"@)),
        asm_word((label + "_r1"@)),
        asm_word((label + "_rh"@)),
        register_of(a1) == Ok::<usize, Seq<char>>(r1),
        register_of(a2) == Ok::<usize, Seq<char>>(r2),
    ensures
        forall|i: int|
            20 <= i < 30 ==> asm_line((i + 1) as nat, #[trigger] increment_lines(label, a1, a2)[i]) == Ok::<
                Option<AsmItem>,
                Seq<char>,
            >(Some(increment_items(label, r1, r2)[i])),
{
    let x = increment_lines(label, a1, a2);
    let items = increment_items(label, r1, r2);
    reveal_strlit(":");
    reveal_strlit("    case ");
    reveal_strlit("    goto ");
    reveal_strlit("    add 1 ");
    reveal_strlit("    add # ");
    assert forall|i: int| 20 <= i < 30 implies asm_line((i + 1) as nat, #[trigger] x[i]) == Ok::<
        Option<AsmItem>,
        Seq<char>,
    >(Some(items[i])) by {
        if i == 20 {
            lemma_asm_goto(21, (label + "_copy"@));
        }
        if i == 21 {
            lemma_asm_label(22, (label + "_ch"@));
        }
        if i == 22 {
            lemma_asm_add(23, false, a2, r2);
        }
        if i == 23 {
            lemma_asm_goto(24, (label + "_copy"@));
        }
        if i == 24 {
            lemma_asm_label(25, (label + "_rest"@));
        }
        if i == 25 {
            lemma_asm_case(26, a2, r2);
        }
        if i == 26 {
            lemma_asm_goto(27, (label + "_done"@));
        }
        if i == 27 {
            lemma_asm_goto(28, (label + "_r1"@));
        }
        if i == 28 {
            lemma_asm_goto(29, (label + "_rh"@));
        }
        if i == 29 {
            lemma_asm_label(30, (label + "_r1"@));
        }
    }
}


#[verifier::spinoff_prover]
#[verifier::rlimit(80)]
proof fn lemma_increment_reads_3(label: Seq<char>, a1: Seq<char>, a2: Seq<char>, r1: usize, r2: usize)
    requires
        commands_kept(),
        asm_word(a1),
        asm_word(a2),
        asm_word(label),
        asm_word((label + "_add1"@)),
        asm_word((label + "_one"@)),
        asm_word((label + "_hash"@)),
        asm_word((label + "_copy"@)),
        asm_word((label + "_rest"@)),
        asm_word((label + "_c1"@)),
        asm_word((label + "_ch"@)),
        asm_word((label + "_done"@)),
        asm_word((label + "_r1"@)),
        asm_word((label + "_rh"@)),
        register_of(a1) == Ok::<usize, Seq<char>>(r1),
        register_of(a2) == Ok::<usize, Seq<char>>(r2),
    ensures
        forall|i: int|
            30 <= i < 36 ==> asm_line((i + 1) as nat, #[trigger] increment_lines(label, a1, a2)[i]) == Ok::<
                Option<AsmItem>,
                Seq<char>,
            >(Some(increment_items(label, r1, r2)[i])),
{
    let x = increment_lines(label, a1, a2);
    let items = increment_items(label, r1, r2);
    reveal_strlit(":");
    reveal_strlit("    case ");
    reveal_strlit("    goto ");
    reveal_strlit("    add 1 ");
    reveal_strlit("    add # ");
    assert forall|i: int| 30 <= i < 36 implies asm_line((i + 1) as nat, #[trigger] x[i]) == Ok::<
        Option<AsmItem>,
        Seq<char>,
    >(Some(items[i])) by {
        if i == 30 {
            lemma_asm_add(31, true, a1, r1);
        }
        if i == 31 {
            lemma_asm_goto(32, (label + "_rest"@));
        }
        if i == 32 {
            lemma_asm_label(33, (label + "_rh"@));
        }
        if i == 33 {
            lemma_asm_add(34, false, a1, r1);
        }
        if i == 34 {
            lemma_asm_goto(35, (label + "_rest"@));
        }
        if i == 35 {
            lemma_asm_label(36, (label + "_done"@));
        }
    }
}


#[verifier::spinoff_prover]
#[verifier::rlimit(80)]
proof fn lemma_increment_reads(label: Seq<char>, a1: Seq<char>, a2: Seq<char>, r1: usize, r2: usize)
    requires
        commands_kept(),
        asm_word(a1),
        asm_word(a2),
        asm_word(label),
        asm_word((label + "_add1"@)),
        asm_word((label + "_one"@)),
        asm_word((label + "_hash"@)),
        asm_word((label + "_copy"@)),
        asm_word((label + "_rest"@)),
        asm_word((label + "_c1"@)),
        asm_word((label + "_ch"@)),
        asm_word((label + "_done"@)),
        asm_word((label + "_r1"@)),
        asm_word((label + "_rh"@)),
        register_of(a1) == Ok::<usize, Seq<char>>(r1),
        register_of(a2) == Ok::<usize, Seq<char>>(r2),
    ensures
        assembly_of(join(increment_lines(label, a1, a2), "\n"@)) == Ok::<Seq<AsmItem>, Seq<char>>(
            increment_items(label, r1, r2),
        ),
{
    let x = increment_lines(label, a1, a2);
    let items = increment_items(label, r1, r2);
    lemma_word_no_newline(a1);
    lemma_word_no_newline(a2);
    lemma_word_no_newline(label);
    lemma_word_no_newline((label + "_add1"@));
    lemma_word_no_newline((label + "_one"@));
    lemma_word_no_newline((label + "_hash"@));
    lemma_word_no_newline((label + "_copy"@));
    lemma_word_no_newline((label + "_rest"@));
    lemma_word_no_newline((label + "_c1"@));
    lemma_word_no_newline((label + "_ch"@));
    lemma_word_no_newline((label + "_done"@));
    lemma_word_no_newline((label + "_r1"@));
    lemma_word_no_newline((label + "_rh"@));
    reveal_strlit(":");
    reveal_strlit("    case ");
    reveal_strlit("    goto ");
    reveal_strlit("    add 1 ");
    reveal_strlit("    add # ");
    lemma_plain_lines(x);
    lemma_increment_reads_0(label, a1, a2, r1, r2);
    lemma_increment_reads_1(label, a1, a2, r1, r2);
    lemma_increment_reads_2(label, a1, a2, r1, r2);
    lemma_increment_reads_3(label, a1, a2, r1, r2);
    assert(x.len() == items.len());
    assert forall|i: int| 0 <= i < x.len() implies asm_line((i + 1) as nat, #[trigger] x[i]) == Ok::<
        Option<AsmItem>,
        Seq<char>,
    >(Some(items[i])) by {
        assert(asm_line((i + 1) as nat, increment_lines(label, a1, a2)[i]) == Ok::<Option<AsmItem>, Seq<char>>(Some(increment_items(label, r1, r2)[i])));
    }
    lemma_assembly_of_lines(x, items);
}


#[verifier::spinoff_prover]
#[verifier::rlimit(80)]
proof fn lemma_increment_labels_0(l: Seq<char>, r1: usize, r2: usize)
    requires
        l != (l + "_add1"@) && l != (l + "_one"@) && l != (l + "_hash"@) && l != (l + "_copy"@) && l != (l + "_rest"@) && l != (l + "_c1"@) && l != (l + "_ch"@) && l != (l + "_done"@) && l != (l + "_r1"@) && l != (l + "_rh"@) && (l + "_add1"@) != (l + "_one"@) && (l + "_add1"@) != (l + "_hash"@) && (l + "_add1"@) != (l + "_copy"@) && (l + "_add1"@) != (l + "_rest"@) && (l + "_add1"@) != (l + "_c1"@) && (l + "_add1"@) != (l + "_ch"@) && (l + "_add1"@) != (l + "_done"@) && (l + "_add1"@) != (l + "_r1"@) && (l + "_add1"@) != (l + "_rh"@) && (l + "_one"@) != (l + "_hash"@) && (l + "_one"@) != (l + "_copy"@) && (l + "_one"@) != (l + "_rest"@) && (l + "_one"@) != (l + "_c1"@) && (l + "_one"@) != (l + "_ch"@) && (l + "_one"@) != (l + "_done"@) && (l + "_one"@) != (l + "_r1"@) && (l + "_one"@) != (l + "_rh"@) && (l + "_hash"@) != (l + "_copy"@) && (l + "_hash"@) != (l + "_rest"@) && (l + "_hash"@) != (l + "_c1"@) && (l + "_hash"@) != (l + "_ch"@) && (l + "_hash"@) != (l + "_done"@) && (l + "_hash"@) != (l + "_r1"@) && (l + "_hash"@) != (l + "_rh"@) && (l + "_copy"@) != (l + "_rest"@) && (l + "_copy"@) != (l + "_c1"@) && (l + "_copy"@) != (l + "_ch"@) && (l + "_copy"@) != (l + "_done"@) && (l + "_copy"@) != (l + "_r1"@) && (l + "_copy"@) != (l + "_rh"@) && (l + "_rest"@) != (l + "_c1"@) && (l + "_rest"@) != (l + "_ch"@) && (l + "_rest"@) != (l + "_done"@) && (l + "_rest"@) != (l + "_r1"@) && (l + "_rest"@) != (l + "_rh"@) && (l + "_c1"@) != (l + "_ch"@) && (l + "_c1"@) != (l + "_done"@) && (l + "_c1"@) != (l + "_r1"@) && (l + "_c1"@) != (l + "_rh"@) && (l + "_ch"@) != (l + "_done"@) && (l + "_ch"@) != (l + "_r1"@) && (l + "_ch"@) != (l + "_rh"@) && (l + "_done"@) != (l + "_r1"@) && (l + "_done"@) != (l + "_rh"@) && (l + "_r1"@) != (l + "_rh"@),
        l != halt_label() && (l + "_add1"@) != halt_label() && (l + "_one"@) != halt_label() && (l + "_hash"@) != halt_label() && (l + "_copy"@) != halt_label() && (l + "_rest"@) != halt_label() && (l + "_c1"@) != halt_label() && (l + "_ch"@) != halt_label() && (l + "_done"@) != halt_label() && (l + "_r1"@) != halt_label() && (l + "_rh"@) != halt_label(),
        position(increment_items(l, r1, r2), 0) == 0,
        labels_upto(increment_items(l, r1, r2), 0) == Ok::<Map<Seq<char>, nat>, Seq<char>>(Map::<Seq<char>, nat>::empty()),
    ensures
        position(increment_items(l, r1, r2), 8) == 6,
        labels_upto(increment_items(l, r1, r2), 8) == Ok::<Map<Seq<char>, nat>, Seq<char>>(Map::<Seq<char>, nat>::empty().insert(l, 0).insert((l + "_one"@), 4)),
{
    let items = increment_items(l, r1, r2);
    assert(position(items, 1) == 0);
    assert(position(items, 2) == 1);
    assert(position(items, 3) == 2);
    assert(position(items, 4) == 3);
    assert(position(items, 5) == 4);
    assert(position(items, 6) == 4);
    assert(position(items, 7) == 5);
    assert(position(items, 8) == 6);
    assert(labels_upto(items, 1) == Ok::<Map<Seq<char>, nat>, Seq<char>>(Map::<Seq<char>, nat>::empty().insert(l, 0)));
    assert(labels_upto(items, 2) == Ok::<Map<Seq<char>, nat>, Seq<char>>(Map::<Seq<char>, nat>::empty().insert(l, 0)));
    assert(labels_upto(items, 3) == Ok::<Map<Seq<char>, nat>, Seq<char>>(Map::<Seq<char>, nat>::empty().insert(l, 0)));
    assert(labels_upto(items, 4) == Ok::<Map<Seq<char>, nat>, Seq<char>>(Map::<Seq<char>, nat>::empty().insert(l, 0)));
    assert(labels_upto(items, 5) == Ok::<Map<Seq<char>, nat>, Seq<char>>(Map::<Seq<char>, nat>::empty().insert(l, 0)));
    assert(labels_upto(items, 6) == Ok::<Map<Seq<char>, nat>, Seq<char>>(Map::<Seq<char>, nat>::empty().insert(l, 0).insert((l + "_one"@), 4)));
    assert(labels_upto(items, 7) == Ok::<Map<Seq<char>, nat>, Seq<char>>(Map::<Seq<char>, nat>::empty().insert(l, 0).insert((l + "_one"@), 4)));
    assert(labels_upto(items, 8) == Ok::<Map<Seq<char>, nat>, Seq<char>>(Map::<Seq<char>, nat>::empty().insert(l, 0).insert((l + "_one"@), 4)));
}


#[verifier::spinoff_prover]
#[verifier::rlimit(80)]
proof fn lemma_increment_labels_1(l: Seq<char>, r1: usize, r2: usize)
    requires
        l != (l + "_add1"@) && l != (l + "_one"@) && l != (l + "_hash"@) && l != (l + "_copy"@) && l != (l + "_rest"@) && l != (l + "_c1"@) && l != (l + "_ch"@) && l != (l + "_done"@) && l != (l + "_r1"@) && l != (l + "_rh"@) && (l + "_add1"@) != (l + "_one"@) && (l + "_add1"@) != (l + "_hash"@) && (l + "_add1"@) != (l + "_copy"@) && (l + "_add1"@) != (l + "_rest"@) && (l + "_add1"@) != (l + "_c1"@) && (l + "_add1"@) != (l + "_ch"@) && (l + "_add1"@) != (l + "_done"@) && (l + "_add1"@) != (l + "_r1"@) && (l + "_add1"@) != (l + "_rh"@) && (l + "_one"@) != (l + "_hash"@) && (l + "_one"@) != (l + "_copy"@) && (l + "_one"@) != (l + "_rest"@) && (l + "_one"@) != (l + "_c1"@) && (l + "_one"@) != (l + "_ch"@) && (l + "_one"@) != (l + "_done"@) && (l + "_one"@) != (l + "_r1"@) && (l + "_one"@) != (l + "_rh"@) && (l + "_hash"@) != (l + "_copy"@) && (l + "_hash"@) != (l + "_rest"@) && (l + "_hash"@) != (l + "_c1"@) && (l + "_hash"@) != (l + "_ch"@) && (l + "_hash"@) != (l + "_done"@) && (l + "_hash"@) != (l + "_r1"@) && (l + "_hash"@) != (l + "_rh"@) && (l + "_copy"@) != (l + "_rest"@) && (l + "_copy"@) != (l + "_c1"@) && (l + "_copy"@) != (l + "_ch"@) && (l + "_copy"@) != (l + "_done"@) && (l + "_copy"@) != (l + "_r1"@) && (l + "_copy"@) != (l + "_rh"@) && (l + "_rest"@) != (l + "_c1"@) && (l + "_rest"@) != (l + "_ch"@) && (l + "_rest"@) != (l + "_done"@) && (l + "_rest"@) != (l + "_r1"@) && (l + "_rest"@) != (l + "_rh"@) && (l + "_c1"@) != (l + "_ch"@) && (l + "_c1"@) != (l + "_done"@) && (l + "_c1"@) != (l + "_r1"@) && (l + "_c1"@) != (l + "_rh"@) && (l + "_ch"@) != (l + "_done"@) && (l + "_ch"@) != (l + "_r1"@) && (l + "_ch"@) != (l + "_rh"@) && (l + "_done"@) != (l + "_r1"@) && (l + "_done"@) != (l + "_rh"@) && (l + "_r1"@) != (l + "_rh"@),
        l != halt_label() && (l + "_add1"@) != halt_label() && (l + "_one"@) != halt_label() && (l + "_hash"@) != halt_label() && (l + "_copy"@) != halt_label() && (l + "_rest"@) != halt_label() && (l + "_c1"@) != halt_label() && (l + "_ch"@) != halt_label() && (l + "_done"@) != halt_label() && (l + "_r1"@) != halt_label() && (l + "_rh"@) != halt_label(),
        position(increment_items(l, r1, r2), 8) == 6,
        labels_upto(increment_items(l, r1, r2), 8) == Ok::<Map<Seq<char>, nat>, Seq<char>>(Map::<Seq<char>, nat>::empty().insert(l, 0).insert((l + "_one"@), 4)),
    ensures
        position(increment_items(l, r1, r2), 16) == 11,
        labels_upto(increment_items(l, r1, r2), 16) == Ok::<Map<Seq<char>, nat>, Seq<char>>(Map::<Seq<char>, nat>::empty().insert(l, 0).insert((l + "_one"@), 4).insert((l + "_hash"@), 6).insert((l + "_add1"@), 8).insert((l + "_copy"@), 9)),
{
    let items = increment_items(l, r1, r2);
    assert(position(items, 9) == 6);
    assert(position(items, 10) == 7);
    assert(position(items, 11) == 8);
    assert(position(items, 12) == 8);
    assert(position(items, 13) == 9);
    assert(position(items, 14) == 9);
    assert(position(items, 15) == 10);
    assert(position(items, 16) == 11);
    assert(labels_upto(items, 9) == Ok::<Map<Seq<char>, nat>, Seq<char>>(Map::<Seq<char>, nat>::empty().insert(l, 0).insert((l + "_one"@), 4).insert((l + "_hash"@), 6)));
    assert(labels_upto(items, 10) == Ok::<Map<Seq<char>, nat>, Seq<char>>(Map::<Seq<char>, nat>::empty().insert(l, 0).insert((l + "_one"@), 4).insert((l + "_hash"@), 6)));
    assert(labels_upto(items, 11) == Ok::<Map<Seq<char>, nat>, Seq<char>>(Map::<Seq<char>, nat>::empty().insert(l, 0).insert((l + "_one"@), 4).insert((l + "_hash"@), 6)));
    assert(labels_upto(items, 12) == Ok::<Map<Seq<char>, nat>, Seq<char>>(Map::<Seq<char>, nat>::empty().insert(l, 0).insert((l + "_one"@), 4).insert((l + "_hash"@), 6).insert((l + "_add1"@), 8)));
    assert(labels_upto(items, 13) == Ok::<Map<Seq<char>, nat>, Seq<char>>(Map::<Seq<char>, nat>::empty().insert(l, 0).insert((l + "_one"@), 4).insert((l + "_hash"@), 6).insert((l + "_add1"@), 8)));
    assert(labels_upto(items, 14) == Ok::<Map<Seq<char>, nat>, Seq<char>>(Map::<Seq<char>, nat>::empty().insert(l, 0).insert((l + "_one"@), 4).insert((l + "_hash"@), 6).insert((l + "_add1"@), 8).insert((l + "_copy"@), 9)));
    assert(labels_upto(items, 15) == Ok::<Map<Seq<char>, nat>, Seq<char>>(Map::<Seq<char>, nat>::empty().insert(l, 0).insert((l + "_one"@), 4).insert((l + "_hash"@), 6).insert((l + "_add1"@), 8).insert((l + "_copy"@), 9)));
    assert(labels_upto(items, 16) == Ok::<Map<Seq<char>, nat>, Seq<char>>(Map::<Seq<char>, nat>::empty().insert(l, 0).insert((l + "_one"@), 4).insert((l + "_hash"@), 6).insert((l + "_add1"@), 8).insert((l + "_copy"@), 9)));
}


#[verifier::spinoff_prover]
#[verifier::rlimit(80)]
proof fn lemma_increment_labels_2(l: Seq<char>, r1: usize, r2: usize)
    requires
        l != (l + "_add1"@) && l != (l + "_one"@) && l != (l + "_hash"@) && l != (l + "_copy"@) && l != (l + "_rest"@) && l != (l + "_c1"@) && l != (l + "_ch"@) && l != (l + "_done"@) && l != (l + "_r1"@) && l != (l + "_rh"@) && (l + "_add1"@) != (l + "_one"@) && (l + "_add1"@) != (l + "_hash"@) && (l + "_add1"@) != (l + "_copy"@) && (l + "_add1"@) != (l + "_rest"@) && (l + "_add1"@) != (l + "_c1"@) && (l + "_add1"@) != (l + "_ch"@) && (l + "_add1"@) != (l + "_done"@) && (l + "_add1"@) != (l + "_r1"@) && (l + "_add1"@) != (l + "_rh"@) && (l + "_one"@) != (l + "_hash"@) && (l + "_one"@) != (l + "_copy"@) && (l + "_one"@) != (l + "_rest"@) && (l + "_one"@) != (l + "_c1"@) && (l + "_one"@) != (l + "_ch"@) && (l + "_one"@) != (l + "_done"@) && (l + "_one"@) != (l + "_r1"@) && (l + "_one"@) != (l + "_rh"@) && (l + "_hash"@) != (l + "_copy"@) && (l + "_hash"@) != (l + "_rest"@) && (l + "_hash"@) != (l + "_c1"@) && (l + "_hash"@) != (l + "_ch"@) && (l + "_hash"@) != (l + "_done"@) && (l + "_hash"@) != (l + "_r1"@) && (l + "_hash"@) != (l + "_rh"@) && (l + "_copy"@) != (l + "_rest"@) && (l + "_copy"@) != (l + "_c1"@) && (l + "_copy"@) != (l + "_ch"@) && (l + "_copy"@) != (l + "_done"@) && (l + "_copy"@) != (l + "_r1"@) && (l + "_copy"@) != (l + "_rh"@) && (l + "_rest"@) != (l + "_c1"@) && (l + "_rest"@) != (l + "_ch"@) && (l + "_rest"@) != (l + "_done"@) && (l + "_rest"@) != (l + "_r1"@) && (l + "_rest"@) != (l + "_rh"@) && (l + "_c1"@) != (l + "_ch"@) && (l + "_c1"@) != (l + "_done"@) && (l + "_c1"@) != (l + "_r1"@) && (l + "_c1"@) != (l + "_rh"@) && (l + "_ch"@) != (l + "_done"@) && (l + "_ch"@) != (l + "_r1"@) && (l + "_ch"@) != (l + "_rh"@) && (l + "_done"@) != (l + "_r1"@) && (l + "_done"@) != (l + "_rh"@) && (l + "_r1"@) != (l + "_rh"@),
        l != halt_label() && (l + "_add1"@) != halt_label() && (l + "_one"@) != halt_label() && (l + "_hash"@) != halt_label() && (l + "_copy"@) != halt_label() && (l + "_rest"@) != halt_label() && (l + "_c1"@) != halt_label() && (l + "_ch"@) != halt_label() && (l + "_done"@) != halt_label() && (l + "_r1"@) != halt_label() && (l + "_rh"@) != halt_label(),
        position(increment_items(l, r1, r2), 16) == 11,
        labels_upto(increment_items(l, r1, r2), 16) == Ok::<Map<Seq<char>, nat>, Seq<char>>(Map::<Seq<char>, nat>::empty().insert(l, 0).insert((l + "_one"@), 4).insert((l + "_hash"@), 6).insert((l + "_add1"@), 8).insert((l + "_copy"@), 9)),
    ensures
        position(increment_items(l, r1, r2), 24) == 17,
        labels_upto(increment_items(l, r1, r2), 24) == Ok::<Map<Seq<char>, nat>, Seq<char>>(Map::<Seq<char>, nat>::empty().insert(l, 0).insert((l + "_one"@), 4).insert((l + "_hash"@), 6).insert((l + "_add1"@), 8).insert((l + "_copy"@), 9).insert((l + "_c1"@), 13).insert((l + "_ch"@), 15)),
{
    let items = increment_items(l, r1, r2);
    assert(position(items, 17) == 12);
    assert(position(items, 18) == 13);
    assert(position(items, 19) == 13);
    assert(position(items, 20) == 14);
    assert(position(items, 21) == 15);
    assert(position(items, 22) == 15);
    assert(position(items, 23) == 16);
    assert(position(items, 24) == 17);
    assert(labels_upto(items, 17) == Ok::<Map<Seq<char>, nat>, Seq<char>>(Map::<Seq<char>, nat>::empty().insert(l, 0).insert((l + "_one"@), 4).insert((l + "_hash"@), 6).insert((l + "_add1"@), 8).insert((l + "_copy"@), 9)));
    assert(labels_upto(items, 18) == Ok::<Map<Seq<char>, nat>, Seq<char>>(Map::<Seq<char>, nat>::empty().insert(l, 0).insert((l + "_one"@), 4).insert((l + "_hash"@), 6).insert((l + "_add1"@), 8).insert((l + "_copy"@), 9)));
    assert(labels_upto(items, 19) == Ok::<Map<Seq<char>, nat>, Seq<char>>(Map::<Seq<char>, nat>::empty().insert(l, 0).insert((l + "_one"@), 4).insert((l + "_hash"@), 6).insert((l + "_add1"@), 8).insert((l + "_copy"@), 9).insert((l + "_c1"@), 13)));
    assert(labels_upto(items, 20) == Ok::<Map<Seq<char>, nat>, Seq<char>>(Map::<Seq<char>, nat>::empty().insert(l, 0).insert((l + "_one"@), 4).insert((l + "_hash"@), 6).insert((l + "_add1"@), 8).insert((l + "_copy"@), 9).insert((l + "_c1"@), 13)));
    assert(labels_upto(items, 21) == Ok::<Map<Seq<char>, nat>, Seq<char>>(Map::<Seq<char>, nat>::empty().insert(l, 0).insert((l + "_one"@), 4).insert((l + "_hash"@), 6).insert((l + "_add1"@), 8).insert((l + "_copy"@), 9).insert((l + "_c1"@), 13)));
    assert(labels_upto(items, 22) == Ok::<Map<Seq<char>, nat>, Seq<char>>(Map::<Seq<char>, nat>::empty().insert(l, 0).insert((l + "_one"@), 4).insert((l + "_hash"@), 6).insert((l + "_add1"@), 8).insert((l + "_copy"@), 9).insert((l + "_c1"@), 13).insert((l + "_ch"@), 15)));
    assert(labels_upto(items, 23) == Ok::<Map<Seq<char>, nat>, Seq<char>>(Map::<Seq<char>, nat>::empty().insert(l, 0).insert((l + "_one"@), 4).insert((l + "_hash"@), 6).insert((l + "_add1"@), 8).insert((l + "_copy"@), 9).insert((l + "_c1"@), 13).insert((l + "_ch"@), 15)));
    assert(labels_upto(items, 24) == Ok::<Map<Seq<char>, nat>, Seq<char>>(Map::<Seq<char>, nat>::empty().insert(l, 0).insert((l + "_one"@), 4).insert((l + "_hash"@), 6).insert((l + "_add1"@), 8).insert((l + "_copy"@), 9).insert((l + "_c1"@), 13).insert((l + "_ch"@), 15)));
}


#[verifier::spinoff_prover]
#[verifier::rlimit(80)]
proof fn lemma_increment_labels_3(l: Seq<char>, r1: usize, r2: usize)
    requires
        l != (l + "_add1"@) && l != (l + "_one"@) && l != (l + "_hash"@) && l != (l + "_copy"@) && l != (l + "_rest"@) && l != (l + "_c1"@) && l != (l + "_ch"@) && l != (l + "_done"@) && l != (l + "_r1"@) && l != (l + "_rh"@) && (l + "_add1"@) != (l + "_one"@) && (l + "_add1"@) != (l + "_hash"@) && (l + "_add1"@) != (l + "_copy"@) && (l + "_add1"@) != (l + "_rest"@) && (l + "_add1"@) != (l + "_c1"@) && (l + "_add1"@) != (l + "_ch"@) && (l + "_add1"@) != (l + "_done"@) && (l + "_add1"@) != (l + "_r1"@) && (l + "_add1"@) != (l + "_rh"@) && (l + "_one"@) != (l + "_hash"@) && (l + "_one"@) != (l + "_copy"@) && (l + "_one"@) != (l + "_rest"@) && (l + "_one"@) != (l + "_c1"@) && (l + "_one"@) != (l + "_ch"@) && (l + "_one"@) != (l + "_done"@) && (l + "_one"@) != (l + "_r1"@) && (l + "_one"@) != (l + "_rh"@) && (l + "_hash"@) != (l + "_copy"@) && (l + "_hash"@) != (l + "_rest"@) && (l + "_hash"@) != (l + "_c1"@) && (l + "_hash"@) != (l + "_ch"@) && (l + "_hash"@) != (l + "_done"@) && (l + "_hash"@) != (l + "_r1"@) && (l + "_hash"@) != (l + "_rh"@) && (l + "_copy"@) != (l + "_rest"@) && (l + "_copy"@) != (l + "_c1"@) && (l + "_copy"@) != (l + "_ch"@) && (l + "_copy"@) != (l + "_done"@) && (l + "_copy"@) != (l + "_r1"@) && (l + "_copy"@) != (l + "_rh"@) && (l + "_rest"@) != (l + "_c1"@) && (l + "_rest"@) != (l + "_ch"@) && (l + "_rest"@) != (l + "_done"@) && (l + "_rest"@) != (l + "_r1"@) && (l + "_rest"@) != (l + "_rh"@) && (l + "_c1"@) != (l + "_ch"@) && (l + "_c1"@) != (l + "_done"@) && (l + "_c1"@) != (l + "_r1"@) && (l + "_c1"@) != (l + "_rh"@) && (l + "_ch"@) != (l + "_done"@) && (l + "_ch"@) != (l + "_r1"@) && (l + "_ch"@) != (l + "_rh"@) && (l + "_done"@) != (l + "_r1"@) && (l + "_done"@) != (l + "_rh"@) && (l + "_r1"@) != (l + "_rh"@),
        l != halt_label() && (l + "_add1"@) != halt_label() && (l + "_one"@) != halt_label() && (l + "_hash"@) != halt_label() && (l + "_copy"@) != halt_label() && (l + "_rest"@) != halt_label() && (l + "_c1"@) != halt_label() && (l + "_ch"@) != halt_label() && (l + "_done"@) != halt_label() && (l + "_r1"@) != halt_label() && (l + "_rh"@) != halt_label(),
        position(increment_items(l, r1, r2), 24) == 17,
        labels_upto(increment_items(l, r1, r2), 24) == Ok::<Map<Seq<char>, nat>, Seq<char>>(Map::<Seq<char>, nat>::empty().insert(l, 0).insert((l + "_one"@), 4).insert((l + "_hash"@), 6).insert((l + "_add1"@), 8).insert((l + "_copy"@), 9).insert((l + "_c1"@), 13).insert((l + "_ch"@), 15)),
    ensures
        position(increment_items(l, r1, r2), 32) == 23,
        labels_upto(increment_items(l, r1, r2), 32) == Ok::<Map<Seq<char>, nat>, Seq<char>>(Map::<Seq<char>, nat>::empty().insert(l, 0).insert((l + "_one"@), 4).insert((l + "_hash"@), 6).insert((l + "_add1"@), 8).insert((l + "_copy"@), 9).insert((l + "_c1"@), 13).insert((l + "_ch"@), 15).insert((l + "_rest"@), 17).insert((l + "_r1"@), 21)),
{
    let items = increment_items(l, r1, r2);
    assert(position(items, 25) == 17);
    assert(position(items, 26) == 18);
    assert(position(items, 27) == 19);
    assert(position(items, 28) == 20);
    assert(position(items, 29) == 21);
    assert(position(items, 30) == 21);
    assert(position(items, 31) == 22);
    assert(position(items, 32) == 23);
    assert(labels_upto(items, 25) == Ok::<Map<Seq<char>, nat>, Seq<char>>(Map::<Seq<char>, nat>::empty().insert(l, 0).insert((l + "_one"@), 4).insert((l + "_hash"@), 6).insert((l + "_add1"@), 8).insert((l + "_copy"@), 9).insert((l + "_c1"@), 13).insert((l + "_ch"@), 15).insert((l + "_rest"@), 17)));
    assert(labels_upto(items, 26) == Ok::<Map<Seq<char>, nat>, Seq<char>>(Map::<Seq<char>, nat>::empty().insert(l, 0).insert((l + "_one"@), 4).insert((l + "_hash"@), 6).insert((l + "_add1"@), 8).insert((l + "_copy"@), 9).insert((l + "_c1"@), 13).insert((l + "_ch"@), 15).insert((l + "_rest"@), 17)));
    assert(labels_upto(items, 27) == Ok::<Map<Seq<char>, nat>, Seq<char>>(Map::<Seq<char>, nat>::empty().insert(l, 0).insert((l + "_one"@), 4).insert((l + "_hash"@), 6).insert((l + "_add1"@), 8).insert((l + "_copy"@), 9).insert((l + "_c1"@), 13).insert((l + "_ch"@), 15).insert((l + "_rest"@), 17)));
    assert(labels_upto(items, 28) == Ok::<Map<Seq<char>, nat>, Seq<char>>(Map::<Seq<char>, nat>::empty().insert(l, 0).insert((l + "_one"@), 4).insert((l + "_hash"@), 6).insert((l + "_add1"@), 8).insert((l + "_copy"@), 9).insert((l + "_c1"@), 13).insert((l + "_ch"@), 15).insert((l + "_rest"@), 17)));
    assert(labels_upto(items, 29) == Ok::<Map<Seq<char>, nat>, Seq<char>>(Map::<Seq<char>, nat>::empty().insert(l, 0).insert((l + "_one"@), 4).insert((l + "_hash"@), 6).insert((l + "_add1"@), 8).insert((l + "_copy"@), 9).insert((l + "_c1"@), 13).insert((l + "_ch"@), 15).insert((l + "_rest"@), 17)));
    assert(labels_upto(items, 30) == Ok::<Map<Seq<char>, nat>, Seq<char>>(Map::<Seq<char>, nat>::empty().insert(l, 0).insert((l + "_one"@), 4).insert((l + "_hash"@), 6).insert((l + "_add1"@), 8).insert((l + "_copy"@), 9).insert((l + "_c1"@), 13).insert((l + "_ch"@), 15).insert((l + "_rest"@), 17).insert((l + "_r1"@), 21)));
    assert(labels_upto(items, 31) == Ok::<Map<Seq<char>, nat>, Seq<char>>(Map::<Seq<char>, nat>::empty().insert(l, 0).insert((l + "_one"@), 4).insert((l + "_hash"@), 6).insert((l + "_add1"@), 8).insert((l + "_copy"@), 9).insert((l + "_c1"@), 13).insert((l + "_ch"@), 15).insert((l + "_rest"@), 17).insert((l + "_r1"@), 21)));
    assert(labels_upto(items, 32) == Ok::<Map<Seq<char>, nat>, Seq<char>>(Map::<Seq<char>, nat>::empty().insert(l, 0).insert((l + "_one"@), 4).insert((l + "_hash"@), 6).insert((l + "_add1"@), 8).insert((l + "_copy"@), 9).insert((l + "_c1"@), 13).insert((l + "_ch"@), 15).insert((l + "_rest"@), 17).insert((l + "_r1"@), 21)));
}


#[verifier::spinoff_prover]
#[verifier::rlimit(80)]
proof fn lemma_increment_labels_4(l: Seq<char>, r1: usize, r2: usize)
    requires
        l != (l + "_add1"@) && l != (l + "_one"@) && l != (l + "_hash"@) && l != (l + "_copy"@) && l != (l + "_rest"@) && l != (l + "_c1"@) && l != (l + "_ch"@) && l != (l + "_done"@) && l != (l + "_r1"@) && l != (l + "_rh"@) && (l + "_add1"@) != (l + "_one"@) && (l + "_add1"@) != (l + "_hash"@) && (l + "_add1"@) != (l + "_copy"@) && (l + "_add1"@) != (l + "_rest"@) && (l + "_add1"@) != (l + "_c1"@) && (l + "_add1"@) != (l + "_ch"@) && (l + "_add1"@) != (l + "_done"@) && (l + "_add1"@) != (l + "_r1"@) && (l + "_add1"@) != (l + "_rh"@) && (l + "_one"@) != (l + "_hash"@) && (l + "_one"@) != (l + "_copy"@) && (l + "_one"@) != (l + "_rest"@) && (l + "_one"@) != (l + "_c1"@) && (l + "_one"@) != (l + "_ch"@) && (l + "_one"@) != (l + "_done"@) && (l + "_one"@) != (l + "_r1"@) && (l + "_one"@) != (l + "_rh"@) && (l + "_hash"@) != (l + "_copy"@) && (l + "_hash"@) != (l + "_rest"@) && (l + "_hash"@) != (l + "_c1"@) && (l + "_hash"@) != (l + "_ch"@) && (l + "_hash"@) != (l + "_done"@) && (l + "_hash"@) != (l + "_r1"@) && (l + "_hash"@) != (l + "_rh"@) && (l + "_copy"@) != (l + "_rest"@) && (l + "_copy"@) != (l + "_c1"@) && (l + "_copy"@) != (l + "_ch"@) && (l + "_copy"@) != (l + "_done"@) && (l + "_copy"@) != (l + "_r1"@) && (l + "_copy"@) != (l + "_rh"@) && (l + "_rest"@) != (l + "_c1"@) && (l + "_rest"@) != (l + "_ch"@) && (l + "_rest"@) != (l + "_done"@) && (l + "_rest"@) != (l + "_r1"@) && (l + "_rest"@) != (l + "_rh"@) && (l + "_c1"@) != (l + "_ch"@) && (l + "_c1"@) != (l + "_done"@) && (l + "_c1"@) != (l + "_r1"@) && (l + "_c1"@) != (l + "_rh"@) && (l + "_ch"@) != (l + "_done"@) && (l + "_ch"@) != (l + "_r1"@) && (l + "_ch"@) != (l + "_rh"@) && (l + "_done"@) != (l + "_r1"@) && (l + "_done"@) != (l + "_rh"@) && (l + "_r1"@) != (l + "_rh"@),
        l != halt_label() && (l + "_add1"@) != halt_label() && (l + "_one"@) != halt_label() && (l + "_hash"@) != halt_label() && (l + "_copy"@) != halt_label() && (l + "_rest"@) != halt_label() && (l + "_c1"@) != halt_label() && (l + "_ch"@) != halt_label() && (l + "_done"@) != halt_label() && (l + "_r1"@) != halt_label() && (l + "_rh"@) != halt_label(),
        position(increment_items(l, r1, r2), 32) == 23,
        labels_upto(increment_items(l, r1, r2), 32) == Ok::<Map<Seq<char>, nat>, Seq<char>>(Map::<Seq<char>, nat>::empty().insert(l, 0).insert((l + "_one"@), 4).insert((l + "_hash"@), 6).insert((l + "_add1"@), 8).insert((l + "_copy"@), 9).insert((l + "_c1"@), 13).insert((l + "_ch"@), 15).insert((l + "_rest"@), 17).insert((l + "_r1"@), 21)),
    ensures
        position(increment_items(l, r1, r2), 36) == 25,
        labels_upto(increment_items(l, r1, r2), 36) == Ok::<Map<Seq<char>, nat>, Seq<char>>(Map::<Seq<char>, nat>::empty().insert(l, 0).insert((l + "_one"@), 4).insert((l + "_hash"@), 6).insert((l + "_add1"@), 8).insert((l + "_copy"@), 9).insert((l + "_c1"@), 13).insert((l + "_ch"@), 15).insert((l + "_rest"@), 17).insert((l + "_r1"@), 21).insert((l + "_rh"@), 23).insert((l + "_done"@), 25)),
{
    let items = increment_items(l, r1, r2);
    assert(position(items, 33) == 23);
    assert(position(items, 34) == 24);
    assert(position(items, 35) == 25);
    assert(position(items, 36) == 25);
    assert(labels_upto(items, 33) == Ok::<Map<Seq<char>, nat>, Seq<char>>(Map::<Seq<char>, nat>::empty().insert(l, 0).insert((l + "_one"@), 4).insert((l + "_hash"@), 6).insert((l + "_add1"@), 8).insert((l + "_copy"@), 9).insert((l + "_c1"@), 13).insert((l + "_ch"@), 15).insert((l + "_rest"@), 17).insert((l + "_r1"@), 21).insert((l + "_rh"@), 23)));
    assert(labels_upto(items, 34) == Ok::<Map<Seq<char>, nat>, Seq<char>>(Map::<Seq<char>, nat>::empty().insert(l, 0).insert((l + "_one"@), 4).insert((l + "_hash"@), 6).insert((l + "_add1"@), 8).insert((l + "_copy"@), 9).insert((l + "_c1"@), 13).insert((l + "_ch"@), 15).insert((l + "_rest"@), 17).insert((l + "_r1"@), 21).insert((l + "_rh"@), 23)));
    assert(labels_upto(items, 35) == Ok::<Map<Seq<char>, nat>, Seq<char>>(Map::<Seq<char>, nat>::empty().insert(l, 0).insert((l + "_one"@), 4).insert((l + "_hash"@), 6).insert((l + "_add1"@), 8).insert((l + "_copy"@), 9).insert((l + "_c1"@), 13).insert((l + "_ch"@), 15).insert((l + "_rest"@), 17).insert((l + "_r1"@), 21).insert((l + "_rh"@), 23)));
    assert(labels_upto(items, 36) == Ok::<Map<Seq<char>, nat>, Seq<char>>(Map::<Seq<char>, nat>::empty().insert(l, 0).insert((l + "_one"@), 4).insert((l + "_hash"@), 6).insert((l + "_add1"@), 8).insert((l + "_copy"@), 9).insert((l + "_c1"@), 13).insert((l + "_ch"@), 15).insert((l + "_rest"@), 17).insert((l + "_r1"@), 21).insert((l + "_rh"@), 23).insert((l + "_done"@), 25)));
}


#[verifier::spinoff_prover]
#[verifier::rlimit(80)]
proof fn lemma_increment_resolve_0(l: Seq<char>, r1: usize, r2: usize, t: Map<Seq<char>, nat>)
    requires
        t.contains_key(l) && t[l] == 0,
        t.contains_key((l + "_add1"@)) && t[(l + "_add1"@)] == 8,
        t.contains_key((l + "_one"@)) && t[(l + "_one"@)] == 4,
        t.contains_key((l + "_hash"@)) && t[(l + "_hash"@)] == 6,
        t.contains_key((l + "_copy"@)) && t[(l + "_copy"@)] == 9,
        t.contains_key((l + "_rest"@)) && t[(l + "_rest"@)] == 17,
        t.contains_key((l + "_c1"@)) && t[(l + "_c1"@)] == 13,
        t.contains_key((l + "_ch"@)) && t[(l + "_ch"@)] == 15,
        t.contains_key((l + "_done"@)) && t[(l + "_done"@)] == 25,
        t.contains_key((l + "_r1"@)) && t[(l + "_r1"@)] == 21,
        t.contains_key((l + "_rh"@)) && t[(l + "_rh"@)] == 23,
        resolve_upto(increment_items(l, r1, r2), t, 0) == Ok::<Seq<Instruction>, Seq<char>>(increment_program(r1, r2).take(0)),
    ensures
        resolve_upto(increment_items(l, r1, r2), t, 8) == Ok::<Seq<Instruction>, Seq<char>>(increment_program(r1, r2).take(6)),
{
    let items = increment_items(l, r1, r2);
    let p = increment_program(r1, r2);
    assert(p =~= seq![
            Instruction::Case(r1),
            Instruction::Forward(7),
            Instruction::Forward(2),
            Instruction::Forward(3),
            Instruction::AddHash(r2),
            Instruction::Backward(5),
            Instruction::AddOne(r2),
            Instruction::Forward(2),
            Instruction::AddOne(r2),
            Instruction::Case(r1),
            Instruction::Forward(7),
            Instruction::Forward(2),
            Instruction::Forward(3),
            Instruction::AddOne(r2),
            Instruction::Backward(5),
            Instruction::AddHash(r2),
            Instruction::Backward(7),
            Instruction::Case(r2),
            Instruction::Forward(7),
            Instruction::Forward(2),
            Instruction::Forward(3),
            Instruction::AddOne(r1),
            Instruction::Backward(5),
            Instruction::AddHash(r1),
            Instruction::Backward(7),
        ]);
    assert forall|k: int| 0 <= k < 25 implies #[trigger] p.take(k).push(p[k]) =~= p.take(k + 1) by {}
    assert(super::jump((l + "_add1"@), 8, 1) == Ok::<Instruction, Seq<char>>(Instruction::Forward(7)));
    assert(super::jump((l + "_one"@), 4, 2) == Ok::<Instruction, Seq<char>>(Instruction::Forward(2)));
    assert(super::jump((l + "_hash"@), 6, 3) == Ok::<Instruction, Seq<char>>(Instruction::Forward(3)));
    assert(super::jump(l, 0, 5) == Ok::<Instruction, Seq<char>>(Instruction::Backward(5)));
    assert(resolve_upto(items, t, 1) == Ok::<Seq<Instruction>, Seq<char>>(p.take(0)));
    assert(resolve_upto(items, t, 2) == Ok::<Seq<Instruction>, Seq<char>>(p.take(1)));
    assert(resolve_upto(items, t, 3) == Ok::<Seq<Instruction>, Seq<char>>(p.take(2)));
    assert(resolve_upto(items, t, 4) == Ok::<Seq<Instruction>, Seq<char>>(p.take(3)));
    assert(resolve_upto(items, t, 5) == Ok::<Seq<Instruction>, Seq<char>>(p.take(4)));
    assert(resolve_upto(items, t, 6) == Ok::<Seq<Instruction>, Seq<char>>(p.take(4)));
    assert(resolve_upto(items, t, 7) == Ok::<Seq<Instruction>, Seq<char>>(p.take(5)));
    assert(resolve_upto(items, t, 8) == Ok::<Seq<Instruction>, Seq<char>>(p.take(6)));
}


#[verifier::spinoff_prover]
#[verifier::rlimit(80)]
proof fn lemma_increment_resolve_1(l: Seq<char>, r1: usize, r2: usize, t: Map<Seq<char>, nat>)
    requires
        t.contains_key(l) && t[l] == 0,
        t.contains_key((l + "_add1"@)) && t[(l + "_add1"@)] == 8,
        t.contains_key((l + "_one"@)) && t[(l + "_one"@)] == 4,
        t.contains_key((l + "_hash"@)) && t[(l + "_hash"@)] == 6,
        t.contains_key((l + "_copy"@)) && t[(l + "_copy"@)] == 9,
        t.contains_key((l + "_rest"@)) && t[(l + "_rest"@)] == 17,
        t.contains_key((l + "_c1"@)) && t[(l + "_c1"@)] == 13,
        t.contains_key((l + "_ch"@)) && t[(l + "_ch"@)] == 15,
        t.contains_key((l + "_done"@)) && t[(l + "_done"@)] == 25,
        t.contains_key((l + "_r1"@)) && t[(l + "_r1"@)] == 21,
        t.contains_key((l + "_rh"@)) && t[(l + "_rh"@)] == 23,
        resolve_upto(increment_items(l, r1, r2), t, 8) == Ok::<Seq<Instruction>, Seq<char>>(increment_program(r1, r2).take(6)),
    ensures
        resolve_upto(increment_items(l, r1, r2), t, 16) == Ok::<Seq<Instruction>, Seq<char>>(increment_program(r1, r2).take(11)),
{
    let items = increment_items(l, r1, r2);
    let p = increment_program(r1, r2);
    assert(p =~= seq![
            Instruction::Case(r1),
            Instruction::Forward(7),
            Instruction::Forward(2),
            Instruction::Forward(3),
            Instruction::AddHash(r2),
            Instruction::Backward(5),
            Instruction::AddOne(r2),
            Instruction::Forward(2),
            Instruction::AddOne(r2),
            Instruction::Case(r1),
            Instruction::Forward(7),
            Instruction::Forward(2),
            Instruction::Forward(3),
            Instruction::AddOne(r2),
            Instruction::Backward(5),
            Instruction::AddHash(r2),
            Instruction::Backward(7),
            Instruction::Case(r2),
            Instruction::Forward(7),
            Instruction::Forward(2),
            Instruction::Forward(3),
            Instruction::AddOne(r1),
            Instruction::Backward(5),
            Instruction::AddHash(r1),
            Instruction::Backward(7),
        ]);
    assert forall|k: int| 0 <= k < 25 implies #[trigger] p.take(k).push(p[k]) =~= p.take(k + 1) by {}
    assert(super::jump((l + "_copy"@), 9, 7) == Ok::<Instruction, Seq<char>>(Instruction::Forward(2)));
    assert(super::jump((l + "_rest"@), 17, 10) == Ok::<Instruction, Seq<char>>(Instruction::Forward(7)));
    assert(resolve_upto(items, t, 9) == Ok::<Seq<Instruction>, Seq<char>>(p.take(6)));
    assert(resolve_upto(items, t, 10) == Ok::<Seq<Instruction>, Seq<char>>(p.take(7)));
    assert(resolve_upto(items, t, 11) == Ok::<Seq<Instruction>, Seq<char>>(p.take(8)));
    assert(resolve_upto(items, t, 12) == Ok::<Seq<Instruction>, Seq<char>>(p.take(8)));
    assert(resolve_upto(items, t, 13) == Ok::<Seq<Instruction>, Seq<char>>(p.take(9)));
    assert(resolve_upto(items, t, 14) == Ok::<Seq<Instruction>, Seq<char>>(p.take(9)));
    assert(resolve_upto(items, t, 15) == Ok::<Seq<Instruction>, Seq<char>>(p.take(10)));
    assert(resolve_upto(items, t, 16) == Ok::<Seq<Instruction>, Seq<char>>(p.take(11)));
}


#[verifier::spinoff_prover]
#[verifier::rlimit(80)]
proof fn lemma_increment_resolve_2(l: Seq<char>, r1: usize, r2: usize, t: Map<Seq<char>, nat>)
    requires
        t.contains_key(l) && t[l] == 0,
        t.contains_key((l + "_add1"@)) && t[(l + "_add1"@)] == 8,
        t.contains_key((l + "_one"@)) && t[(l + "_one"@)] == 4,
        t.contains_key((l + "_hash"@)) && t[(l + "_hash"@)] == 6,
        t.contains_key((l + "_copy"@)) && t[(l + "_copy"@)] == 9,
        t.contains_key((l + "_rest"@)) && t[(l + "_rest"@)] == 17,
        t.contains_key((l + "_c1"@)) && t[(l + "_c1"@)] == 13,
        t.contains_key((l + "_ch"@)) && t[(l + "_ch"@)] == 15,
        t.contains_key((l + "_done"@)) && t[(l + "_done"@)] == 25,
        t.contains_key((l + "_r1"@)) && t[(l + "_r1"@)] == 21,
        t.contains_key((l + "_rh"@)) && t[(l + "_rh"@)] == 23,
        resolve_upto(increment_items(l, r1, r2), t, 16) == Ok::<Seq<Instruction>, Seq<char>>(increment_program(r1, r2).take(11)),
    ensures
        resolve_upto(increment_items(l, r1, r2), t, 24) == Ok::<Seq<Instruction>, Seq<char>>(increment_program(r1, r2).take(17)),
{
    let items = increment_items(l, r1, r2);
    let p = increment_program(r1, r2);
    assert(p =~= seq![
            Instruction::Case(r1),
            Instruction::Forward(7),
            Instruction::Forward(2),
            Instruction::Forward(3),
            Instruction::AddHash(r2),
            Instruction::Backward(5),
            Instruction::AddOne(r2),
            Instruction::Forward(2),
            Instruction::AddOne(r2),
            Instruction::Case(r1),
            Instruction::Forward(7),
            Instruction::Forward(2),
            Instruction::Forward(3),
            Instruction::AddOne(r2),
            Instruction::Backward(5),
            Instruction::AddHash(r2),
            Instruction::Backward(7),
            Instruction::Case(r2),
            Instruction::Forward(7),
            Instruction::Forward(2),
            Instruction::Forward(3),
            Instruction::AddOne(r1),
            Instruction::Backward(5),
            Instruction::AddHash(r1),
            Instruction::Backward(7),
        ]);
    assert forall|k: int| 0 <= k < 25 implies #[trigger] p.take(k).push(p[k]) =~= p.take(k + 1) by {}
    assert(super::jump((l + "_c1"@), 13, 11) == Ok::<Instruction, Seq<char>>(Instruction::Forward(2)));
    assert(super::jump((l + "_ch"@), 15, 12) == Ok::<Instruction, Seq<char>>(Instruction::Forward(3)));
    assert(super::jump((l + "_copy"@), 9, 14) == Ok::<Instruction, Seq<char>>(Instruction::Backward(5)));
    assert(super::jump((l + "_copy"@), 9, 16) == Ok::<Instruction, Seq<char>>(Instruction::Backward(7)));
    assert(resolve_upto(items, t, 17) == Ok::<Seq<Instruction>, Seq<char>>(p.take(12)));
    assert(resolve_upto(items, t, 18) == Ok::<Seq<Instruction>, Seq<char>>(p.take(13)));
    assert(resolve_upto(items, t, 19) == Ok::<Seq<Instruction>, Seq<char>>(p.take(13)));
    assert(resolve_upto(items, t, 20) == Ok::<Seq<Instruction>, Seq<char>>(p.take(14)));
    assert(resolve_upto(items, t, 21) == Ok::<Seq<Instruction>, Seq<char>>(p.take(15)));
    assert(resolve_upto(items, t, 22) == Ok::<Seq<Instruction>, Seq<char>>(p.take(15)));
    assert(resolve_upto(items, t, 23) == Ok::<Seq<Instruction>, Seq<char>>(p.take(16)));
    assert(resolve_upto(items, t, 24) == Ok::<Seq<Instruction>, Seq<char>>(p.take(17)));
}


#[verifier::spinoff_prover]
#[verifier::rlimit(80)]
proof fn lemma_increment_resolve_3(l: Seq<char>, r1: usize, r2: usize, t: Map<Seq<char>, nat>)
    requires
        t.contains_key(l) && t[l] == 0,
        t.contains_key((l + "_add1"@)) && t[(l + "_add1"@)] == 8,
        t.contains_key((l + "_one"@)) && t[(l + "_one"@)] == 4,
        t.contains_key((l + "_hash"@)) && t[(l + "_hash"@)] == 6,
        t.contains_key((l + "_copy"@)) && t[(l + "_copy"@)] == 9,
        t.contains_key((l + "_rest"@)) && t[(l + "_rest"@)] == 17,
        t.contains_key((l + "_c1"@)) && t[(l + "_c1"@)] == 13,
        t.contains_key((l + "_ch"@)) && t[(l + "_ch"@)] == 15,
        t.contains_key((l + "_done"@)) && t[(l + "_done"@)] == 25,
        t.contains_key((l + "_r1"@)) && t[(l + "_r1"@)] == 21,
        t.contains_key((l + "_rh"@)) && t[(l + "_rh"@)] == 23,
        resolve_upto(increment_items(l, r1, r2), t, 24) == Ok::<Seq<Instruction>, Seq<char>>(increment_program(r1, r2).take(17)),
    ensures
        resolve_upto(increment_items(l, r1, r2), t, 32) == Ok::<Seq<Instruction>, Seq<char>>(increment_program(r1, r2).take(23)),
{
    let items = increment_items(l, r1, r2);
    let p = increment_program(r1, r2);
    assert(p =~= seq![
            Instruction::Case(r1),
            Instruction::Forward(7),
            Instruction::Forward(2),
            Instruction::Forward(3),
            Instruction::AddHash(r2),
            Instruction::Backward(5),
            Instruction::AddOne(r2),
            Instruction::Forward(2),
            Instruction::AddOne(r2),
            Instruction::Case(r1),
            Instruction::Forward(7),
            Instruction::Forward(2),
            Instruction::Forward(3),
            Instruction::AddOne(r2),
            Instruction::Backward(5),
            Instruction::AddHash(r2),
            Instruction::Backward(7),
            Instruction::Case(r2),
            Instruction::Forward(7),
            Instruction::Forward(2),
            Instruction::Forward(3),
            Instruction::AddOne(r1),
            Instruction::Backward(5),
            Instruction::AddHash(r1),
            Instruction::Backward(7),
        ]);
    assert forall|k: int| 0 <= k < 25 implies #[trigger] p.take(k).push(p[k]) =~= p.take(k + 1) by {}
    assert(super::jump((l + "_done"@), 25, 18) == Ok::<Instruction, Seq<char>>(Instruction::Forward(7)));
    assert(super::jump((l + "_r1"@), 21, 19) == Ok::<Instruction, Seq<char>>(Instruction::Forward(2)));
    assert(super::jump((l + "_rh"@), 23, 20) == Ok::<Instruction, Seq<char>>(Instruction::Forward(3)));
    assert(super::jump((l + "_rest"@), 17, 22) == Ok::<Instruction, Seq<char>>(Instruction::Backward(5)));
    assert(resolve_upto(items, t, 25) == Ok::<Seq<Instruction>, Seq<char>>(p.take(17)));
    assert(resolve_upto(items, t, 26) == Ok::<Seq<Instruction>, Seq<char>>(p.take(18)));
    assert(resolve_upto(items, t, 27) == Ok::<Seq<Instruction>, Seq<char>>(p.take(19)));
    assert(resolve_upto(items, t, 28) == Ok::<Seq<Instruction>, Seq<char>>(p.take(20)));
    assert(resolve_upto(items, t, 29) == Ok::<Seq<Instruction>, Seq<char>>(p.take(21)));
    assert(resolve_upto(items, t, 30) == Ok::<Seq<Instruction>, Seq<char>>(p.take(21)));
    assert(resolve_upto(items, t, 31) == Ok::<Seq<Instruction>, Seq<char>>(p.take(22)));
    assert(resolve_upto(items, t, 32) == Ok::<Seq<Instruction>, Seq<char>>(p.take(23)));
}


#[verifier::spinoff_prover]
#[verifier::rlimit(80)]
proof fn lemma_increment_resolve_4(l: Seq<char>, r1: usize, r2: usize, t: Map<Seq<char>, nat>)
    requires
        t.contains_key(l) && t[l] == 0,
        t.contains_key((l + "_add1"@)) && t[(l + "_add1"@)] == 8,
        t.contains_key((l + "_one"@)) && t[(l + "_one"@)] == 4,
        t.contains_key((l + "_hash"@)) && t[(l + "_hash"@)] == 6,
        t.contains_key((l + "_copy"@)) && t[(l + "_copy"@)] == 9,
        t.contains_key((l + "_rest"@)) && t[(l + "_rest"@)] == 17,
        t.contains_key((l + "_c1"@)) && t[(l + "_c1"@)] == 13,
        t.contains_key((l + "_ch"@)) && t[(l + "_ch"@)] == 15,
        t.contains_key((l + "_done"@)) && t[(l + "_done"@)] == 25,
        t.contains_key((l + "_r1"@)) && t[(l + "_r1"@)] == 21,
        t.contains_key((l + "_rh"@)) && t[(l + "_rh"@)] == 23,
        resolve_upto(increment_items(l, r1, r2), t, 32) == Ok::<Seq<Instruction>, Seq<char>>(increment_program(r1, r2).take(23)),
    ensures
        resolve_upto(increment_items(l, r1, r2), t, 36) == Ok::<Seq<Instruction>, Seq<char>>(increment_program(r1, r2).take(25)),
{
    let items = increment_items(l, r1, r2);
    let p = increment_program(r1, r2);
    assert(p =~= seq![
            Instruction::Case(r1),
            Instruction::Forward(7),
            Instruction::Forward(2),
            Instruction::Forward(3),
            Instruction::AddHash(r2),
            Instruction::Backward(5),
            Instruction::AddOne(r2),
            Instruction::Forward(2),
            Instruction::AddOne(r2),
            Instruction::Case(r1),
            Instruction::Forward(7),
            Instruction::Forward(2),
            Instruction::Forward(3),
            Instruction::AddOne(r2),
            Instruction::Backward(5),
            Instruction::AddHash(r2),
            Instruction::Backward(7),
            Instruction::Case(r2),
            Instruction::Forward(7),
            Instruction::Forward(2),
            Instruction::Forward(3),
            Instruction::AddOne(r1),
            Instruction::Backward(5),
            Instruction::AddHash(r1),
            Instruction::Backward(7),
        ]);
    assert forall|k: int| 0 <= k < 25 implies #[trigger] p.take(k).push(p[k]) =~= p.take(k + 1) by {}
    assert(super::jump((l + "_rest"@), 17, 24) == Ok::<Instruction, Seq<char>>(Instruction::Backward(7)));
    assert(resolve_upto(items, t, 33) == Ok::<Seq<Instruction>, Seq<char>>(p.take(23)));
    assert(resolve_upto(items, t, 34) == Ok::<Seq<Instruction>, Seq<char>>(p.take(24)));
    assert(resolve_upto(items, t, 35) == Ok::<Seq<Instruction>, Seq<char>>(p.take(25)));
    assert(resolve_upto(items, t, 36) == Ok::<Seq<Instruction>, Seq<char>>(p.take(25)));
}


#[verifier::spinoff_prover]
#[verifier::rlimit(80)]
proof fn lemma_increment_resolves(l: Seq<char>, r1: usize, r2: usize)
    requires
        l != (l + "_add1"@) && l != (l + "_one"@) && l != (l + "_hash"@) && l != (l + "_copy"@) && l != (l + "_rest"@) && l != (l + "_c1"@) && l != (l + "_ch"@) && l != (l + "_done"@) && l != (l + "_r1"@) && l != (l + "_rh"@) && (l + "_add1"@) != (l + "_one"@) && (l + "_add1"@) != (l + "_hash"@) && (l + "_add1"@) != (l + "_copy"@) && (l + "_add1"@) != (l + "_rest"@) && (l + "_add1"@) != (l + "_c1"@) && (l + "_add1"@) != (l + "_ch"@) && (l + "_add1"@) != (l + "_done"@) && (l + "_add1"@) != (l + "_r1"@) && (l + "_add1"@) != (l + "_rh"@) && (l + "_one"@) != (l + "_hash"@) && (l + "_one"@) != (l + "_copy"@) && (l + "_one"@) != (l + "_rest"@) && (l + "_one"@) != (l + "_c1"@) && (l + "_one"@) != (l + "_ch"@) && (l + "_one"@) != (l + "_done"@) && (l + "_one"@) != (l + "_r1"@) && (l + "_one"@) != (l + "_rh"@) && (l + "_hash"@) != (l + "_copy"@) && (l + "_hash"@) != (l + "_rest"@) && (l + "_hash"@) != (l + "_c1"@) && (l + "_hash"@) != (l + "_ch"@) && (l + "_hash"@) != (l + "_done"@) && (l + "_hash"@) != (l + "_r1"@) && (l + "_hash"@) != (l + "_rh"@) && (l + "_copy"@) != (l + "_rest"@) && (l + "_copy"@) != (l + "_c1"@) && (l + "_copy"@) != (l + "_ch"@) && (l + "_copy"@) != (l + "_done"@) && (l + "_copy"@) != (l + "_r1"@) && (l + "_copy"@) != (l + "_rh"@) && (l + "_rest"@) != (l + "_c1"@) && (l + "_rest"@) != (l + "_ch"@) && (l + "_rest"@) != (l + "_done"@) && (l + "_rest"@) != (l + "_r1"@) && (l + "_rest"@) != (l + "_rh"@) && (l + "_c1"@) != (l + "_ch"@) && (l + "_c1"@) != (l + "_done"@) && (l + "_c1"@) != (l + "_r1"@) && (l + "_c1"@) != (l + "_rh"@) && (l + "_ch"@) != (l + "_done"@) && (l + "_ch"@) != (l + "_r1"@) && (l + "_ch"@) != (l + "_rh"@) && (l + "_done"@) != (l + "_r1"@) && (l + "_done"@) != (l + "_rh"@) && (l + "_r1"@) != (l + "_rh"@),
        l != halt_label() && (l + "_add1"@) != halt_label() && (l + "_one"@) != halt_label() && (l + "_hash"@) != halt_label() && (l + "_copy"@) != halt_label() && (l + "_rest"@) != halt_label() && (l + "_c1"@) != halt_label() && (l + "_ch"@) != halt_label() && (l + "_done"@) != halt_label() && (l + "_r1"@) != halt_label() && (l + "_rh"@) != halt_label(),
    ensures
        resolved(increment_items(l, r1, r2)) == Ok::<Seq<Instruction>, Seq<char>>(increment_program(r1, r2)),
{
    let items = increment_items(l, r1, r2);
    let p = increment_program(r1, r2);
    assert(p =~= seq![
            Instruction::Case(r1),
            Instruction::Forward(7),
            Instruction::Forward(2),
            Instruction::Forward(3),
            Instruction::AddHash(r2),
            Instruction::Backward(5),
            Instruction::AddOne(r2),
            Instruction::Forward(2),
            Instruction::AddOne(r2),
            Instruction::Case(r1),
            Instruction::Forward(7),
            Instruction::Forward(2),
            Instruction::Forward(3),
            Instruction::AddOne(r2),
            Instruction::Backward(5),
            Instruction::AddHash(r2),
            Instruction::Backward(7),
            Instruction::Case(r2),
            Instruction::Forward(7),
            Instruction::Forward(2),
            Instruction::Forward(3),
            Instruction::AddOne(r1),
            Instruction::Backward(5),
            Instruction::AddHash(r1),
            Instruction::Backward(7),
        ]);
    assert(position(items, 0) == 0);
    assert(labels_upto(items, 0) == Ok::<Map<Seq<char>, nat>, Seq<char>>(Map::<Seq<char>, nat>::empty()));
    lemma_increment_labels_0(l, r1, r2);
    lemma_increment_labels_1(l, r1, r2);
    lemma_increment_labels_2(l, r1, r2);
    lemma_increment_labels_3(l, r1, r2);
    lemma_increment_labels_4(l, r1, r2);
    let t = Map::<Seq<char>, nat>::empty().insert(l, 0).insert((l + "_one"@), 4).insert((l + "_hash"@), 6).insert((l + "_add1"@), 8).insert((l + "_copy"@), 9).insert((l + "_c1"@), 13).insert((l + "_ch"@), 15).insert((l + "_rest"@), 17).insert((l + "_r1"@), 21).insert((l + "_rh"@), 23).insert((l + "_done"@), 25).insert(halt_label(), 25);
    assert(label_table(items) == Ok::<Map<Seq<char>, nat>, Seq<char>>(t));
    assert(p.take(0) =~= Seq::<Instruction>::empty());
    assert(resolve_upto(items, t, 0) == Ok::<Seq<Instruction>, Seq<char>>(p.take(0)));
    lemma_increment_resolve_0(l, r1, r2, t);
    lemma_increment_resolve_1(l, r1, r2, t);
    lemma_increment_resolve_2(l, r1, r2, t);
    lemma_increment_resolve_3(l, r1, r2, t);
    lemma_increment_resolve_4(l, r1, r2, t);
    assert(p.take(25) =~= p);
}


/// The template of `increment`, for a call whose arguments name the registers it
/// uses, becomes lines that assemble to `increment_program(r1, r2)`; the call uses up one label
/// number.
pub proof fn lemma_increment_template(parts: Seq<Seq<char>>, n: nat, c: usize, r1: usize, r2: usize)
    requires
        commands_kept(),
        parts.len() == 3,
        asm_word(parts[1]),
        asm_word(parts[2]),
        register_of(parts[1]) == Ok::<usize, Seq<char>>(r1),
        register_of(parts[2]) == Ok::<usize, Seq<char>>(r2),
    ensures
        builtin_expansion("increment"@, parts, n, c) == Ok::<Expansion, Seq<char>>(
            Expansion {
                lines: builtin_expansion("increment"@, parts, n, c)->Ok_0.lines,
                changed: true,
                counter: next_label(c),
            },
        ),
        assembled(join(builtin_expansion("increment"@, parts, n, c)->Ok_0.lines, "\n"@)) == Ok::<
            Seq<Instruction>,
            Seq<char>,
        >(increment_program(r1, r2)),
{
    reveal_strlit("inc");
    reveal_strlit("_add1");
    reveal_strlit("_one");
    reveal_strlit("_hash");
    reveal_strlit("_copy");
    reveal_strlit("_rest");
    reveal_strlit("_c1");
    reveal_strlit("_ch");
    reveal_strlit("_done");
    reveal_strlit("_r1");
    reveal_strlit("_rh");
    let l = label_text("inc"@, c);
    let e = Seq::<char>::empty();
    assert(l + e =~= l);
    lemma_suffix_word("inc"@, c, e);
    lemma_suffix_word("inc"@, c, "_add1"@);
    lemma_suffix_word("inc"@, c, "_one"@);
    lemma_suffix_word("inc"@, c, "_hash"@);
    lemma_suffix_word("inc"@, c, "_copy"@);
    lemma_suffix_word("inc"@, c, "_rest"@);
    lemma_suffix_word("inc"@, c, "_c1"@);
    lemma_suffix_word("inc"@, c, "_ch"@);
    lemma_suffix_word("inc"@, c, "_done"@);
    lemma_suffix_word("inc"@, c, "_r1"@);
    lemma_suffix_word("inc"@, c, "_rh"@);
    lemma_suffix_not_halt("inc"@, c, e);
    lemma_suffix_not_halt("inc"@, c, "_add1"@);
    lemma_suffix_not_halt("inc"@, c, "_one"@);
    lemma_suffix_not_halt("inc"@, c, "_hash"@);
    lemma_suffix_not_halt("inc"@, c, "_copy"@);
    lemma_suffix_not_halt("inc"@, c, "_rest"@);
    lemma_suffix_not_halt("inc"@, c, "_c1"@);
    lemma_suffix_not_halt("inc"@, c, "_ch"@);
    lemma_suffix_not_halt("inc"@, c, "_done"@);
    lemma_suffix_not_halt("inc"@, c, "_r1"@);
    lemma_suffix_not_halt("inc"@, c, "_rh"@);
    assert(e.len() != "_add1"@.len());
    lemma_suffix_distinct(l, e, "_add1"@);
    assert(e.len() != "_one"@.len());
    lemma_suffix_distinct(l, e, "_one"@);
    assert(e.len() != "_hash"@.len());
    lemma_suffix_distinct(l, e, "_hash"@);
    assert(e.len() != "_copy"@.len());
    lemma_suffix_distinct(l, e, "_copy"@);
    assert(e.len() != "_rest"@.len());
    lemma_suffix_distinct(l, e, "_rest"@);
    assert(e.len() != "_c1"@.len());
    lemma_suffix_distinct(l, e, "_c1"@);
    assert(e.len() != "_ch"@.len());
    lemma_suffix_distinct(l, e, "_ch"@);
    assert(e.len() != "_done"@.len());
    lemma_suffix_distinct(l, e, "_done"@);
    assert(e.len() != "_r1"@.len());
    lemma_suffix_distinct(l, e, "_r1"@);
    assert(e.len() != "_rh"@.len());
    lemma_suffix_distinct(l, e, "_rh"@);
    assert("_add1"@.len() != "_one"@.len());
    lemma_suffix_distinct(l, "_add1"@, "_one"@);
    assert("_add1"@[1] != "_hash"@[1]);
    lemma_suffix_distinct(l, "_add1"@, "_hash"@);
    assert("_add1"@[1] != "_copy"@[1]);
    lemma_suffix_distinct(l, "_add1"@, "_copy"@);
    assert("_add1"@[1] != "_rest"@[1]);
    lemma_suffix_distinct(l, "_add1"@, "_rest"@);
    assert("_add1"@.len() != "_c1"@.len());
    lemma_suffix_distinct(l, "_add1"@, "_c1"@);
    assert("_add1"@.len() != "_ch"@.len());
    lemma_suffix_distinct(l, "_add1"@, "_ch"@);
    assert("_add1"@[1] != "_done"@[1]);
    lemma_suffix_distinct(l, "_add1"@, "_done"@);
    assert("_add1"@.len() != "_r1"@.len());
    lemma_suffix_distinct(l, "_add1"@, "_r1"@);
    assert("_add1"@.len() != "_rh"@.len());
    lemma_suffix_distinct(l, "_add1"@, "_rh"@);
    assert("_one"@.len() != "_hash"@.len());
    lemma_suffix_distinct(l, "_one"@, "_hash"@);
    assert("_one"@.len() != "_copy"@.len());
    lemma_suffix_distinct(l, "_one"@, "_copy"@);
    assert("_one"@.len() != "_rest"@.len());
    lemma_suffix_distinct(l, "_one"@, "_rest"@);
    assert("_one"@.len() != "_c1"@.len());
    lemma_suffix_distinct(l, "_one"@, "_c1"@);
    assert("_one"@.len() != "_ch"@.len());
    lemma_suffix_distinct(l, "_one"@, "_ch"@);
    assert("_one"@.len() != "_done"@.len());
    lemma_suffix_distinct(l, "_one"@, "_done"@);
    assert("_one"@.len() != "_r1"@.len());
    lemma_suffix_distinct(l, "_one"@, "_r1"@);
    assert("_one"@.len() != "_rh"@.len());
    lemma_suffix_distinct(l, "_one"@, "_rh"@);
    assert("_hash"@[1] != "_copy"@[1]);
    lemma_suffix_distinct(l, "_hash"@, "_copy"@);
    assert("_hash"@[1] != "_rest"@[1]);
    lemma_suffix_distinct(l, "_hash"@, "_rest"@);
    assert("_hash"@.len() != "_c1"@.len());
    lemma_suffix_distinct(l, "_hash"@, "_c1"@);
    assert("_hash"@.len() != "_ch"@.len());
    lemma_suffix_distinct(l, "_hash"@, "_ch"@);
    assert("_hash"@[1] != "_done"@[1]);
    lemma_suffix_distinct(l, "_hash"@, "_done"@);
    assert("_hash"@.len() != "_r1"@.len());
    lemma_suffix_distinct(l, "_hash"@, "_r1"@);
    assert("_hash"@.len() != "_rh"@.len());
    lemma_suffix_distinct(l, "_hash"@, "_rh"@);
    assert("_copy"@[1] != "_rest"@[1]);
    lemma_suffix_distinct(l, "_copy"@, "_rest"@);
    assert("_copy"@.len() != "_c1"@.len());
    lemma_suffix_distinct(l, "_copy"@, "_c1"@);
    assert("_copy"@.len() != "_ch"@.len());
    lemma_suffix_distinct(l, "_copy"@, "_ch"@);
    assert("_copy"@[1] != "_done"@[1]);
    lemma_suffix_distinct(l, "_copy"@, "_done"@);
    assert("_copy"@.len() != "_r1"@.len());
    lemma_suffix_distinct(l, "_copy"@, "_r1"@);
    assert("_copy"@.len() != "_rh"@.len());
    lemma_suffix_distinct(l, "_copy"@, "_rh"@);
    assert("_rest"@.len() != "_c1"@.len());
    lemma_suffix_distinct(l, "_rest"@, "_c1"@);
    assert("_rest"@.len() != "_ch"@.len());
    lemma_suffix_distinct(l, "_rest"@, "_ch"@);
    assert("_rest"@[1] != "_done"@[1]);
    lemma_suffix_distinct(l, "_rest"@, "_done"@);
    assert("_rest"@.len() != "_r1"@.len());
    lemma_suffix_distinct(l, "_rest"@, "_r1"@);
    assert("_rest"@.len() != "_rh"@.len());
    lemma_suffix_distinct(l, "_rest"@, "_rh"@);
    assert("_c1"@[2] != "_ch"@[2]);
    lemma_suffix_distinct(l, "_c1"@, "_ch"@);
    assert("_c1"@.len() != "_done"@.len());
    lemma_suffix_distinct(l, "_c1"@, "_done"@);
    assert("_c1"@[1] != "_r1"@[1]);
    lemma_suffix_distinct(l, "_c1"@, "_r1"@);
    assert("_c1"@[1] != "_rh"@[1]);
    lemma_suffix_distinct(l, "_c1"@, "_rh"@);
    assert("_ch"@.len() != "_done"@.len());
    lemma_suffix_distinct(l, "_ch"@, "_done"@);
    assert("_ch"@[1] != "_r1"@[1]);
    lemma_suffix_distinct(l, "_ch"@, "_r1"@);
    assert("_ch"@[1] != "_rh"@[1]);
    lemma_suffix_distinct(l, "_ch"@, "_rh"@);
    assert("_done"@.len() != "_r1"@.len());
    lemma_suffix_distinct(l, "_done"@, "_r1"@);
    assert("_done"@.len() != "_rh"@.len());
    lemma_suffix_distinct(l, "_done"@, "_rh"@);
    assert("_r1"@[2] != "_rh"@[2]);
    lemma_suffix_distinct(l, "_r1"@, "_rh"@);
    lemma_increment_expands(parts, n, c);
    lemma_increment_reads(l, parts[1], parts[2], r1, r2);
    lemma_increment_resolves(l, r1, r2);
}


/// The lines that a call `decrement a1 a2` becomes, with `label` made for the call.
pub open spec fn decrement_lines(label: Seq<char>, a1: Seq<char>, a2: Seq<char>) -> Seq<Seq<char>> {
    seq![
        label + ":"@,
        "    case "@ + a1,
        "    goto "@ + (label + "_rest"@),
        "    goto "@ + (label + "_one"@),
        "    goto "@ + (label + "_hash"@),
        (label + "_one"@) + ":"@,
        "    add # "@ + a2,
        "    goto "@ + (label + "_copy"@),
        (label + "_hash"@) + ":"@,
        "    add 1 "@ + a2,
        "    goto "@ + label,
        (label + "_copy"@) + ":"@,
        "    case "@ + a1,
        "    goto "@ + (label + "_rest"@),
        "    goto "@ + (label + "_c1"@),
        "    goto "@ + (label + "_ch"@),
        (label + "_c1"@) + ":"@,
        "    add 1 "@ + a2,
        "    goto "@ + (label + "_copy"@),
        (label + "_ch"@) + ":"@,
        "    add # "@ + a2,
        "    goto "@ + (label + "_copy"@),
        (label + "_rest"@) + ":"@,
        "    case "@ + a2,
        "    goto "@ + (label + "_done"@),
        "    goto "@ + (label + "_r1"@),
        "    goto "@ + (label + "_rh"@),
        (label + "_r1"@) + ":"@,
        "    add 1 "@ + a1,
        "    goto "@ + (label + "_rest"@),
        (label + "_rh"@) + ":"@,
        "    add # "@ + a1,
        "    goto "@ + (label + "_rest"@),
        (label + "_done"@) + ":"@,
    ]
}


#[verifier::spinoff_prover]
#[verifier::rlimit(80)]
proof fn lemma_decrement_expands(parts: Seq<Seq<char>>, n: nat, c: usize)
    requires
        parts.len() == 3,
    ensures
        builtin_expansion("decrement"@, parts, n, c) == Ok::<Expansion, Seq<char>>(
            Expansion {
                lines: decrement_lines(label_text("dec"@, c), parts[1], parts[2]),
                changed: true,
                counter: next_label(c),
            },
        ),
{
    reveal_strlit("dec");
    reveal_strlit("decrement");
    let label = label_text("dec"@, c);
    let tl = seq![
        "{L}:"@,
        "    case {1}"@,
        "    goto {L}_rest"@,
        "    goto {L}_one"@,
        "    goto {L}_hash"@,
        "{L}_one:"@,
        "    add # {2}"@,
        "    goto {L}_copy"@,
        "{L}_hash:"@,
        "    add 1 {2}"@,
        "    goto {L}"@,
        "{L}_copy:"@,
        "    case {1}"@,
        "    goto {L}_rest"@,
        "    goto {L}_c1"@,
        "    goto {L}_ch"@,
        "{L}_c1:"@,
        "    add 1 {2}"@,
        "    goto {L}_copy"@,
        "{L}_ch:"@,
        "    add # {2}"@,
        "    goto {L}_copy"@,
        "{L}_rest:"@,
        "    case {2}"@,
        "    goto {L}_done"@,
        "    goto {L}_r1"@,
        "    goto {L}_rh"@,
        "{L}_r1:"@,
        "    add 1 {1}"@,
        "    goto {L}_rest"@,
        "{L}_rh:"@,
        "    add # {1}"@,
        "    goto {L}_rest"@,
        "{L}_done:"@,
    ];
    reveal_strlit("{L}:\n    case {1}\n    goto {L}_rest\n    goto {L}_one\n    goto {L}_hash\n{L}_one:\n    add # {2}\n    goto {L}_copy\n{L}_hash:\n    add 1 {2}\n    goto {L}\n{L}_copy:\n    case {1}\n    goto {L}_rest\n    goto {L}_c1\n    goto {L}_ch\n{L}_c1:\n    add 1 {2}\n    goto {L}_copy\n{L}_ch:\n    add # {2}\n    goto {L}_copy\n{L}_rest:\n    case {2}\n    goto {L}_done\n    goto {L}_r1\n    goto {L}_rh\n{L}_r1:\n    add 1 {1}\n    goto {L}_rest\n{L}_rh:\n    add # {1}\n    goto {L}_rest\n{L}_done:");
    reveal_strlit("    add # {1}");
    reveal_strlit("    add # {2}");
    reveal_strlit("    add 1 {1}");
    reveal_strlit("    add 1 {2}");
    reveal_strlit("    case {1}");
    reveal_strlit("    case {2}");
    reveal_strlit("    goto {L}");
    reveal_strlit("    goto {L}_c1");
    reveal_strlit("    goto {L}_ch");
    reveal_strlit("    goto {L}_copy");
    reveal_strlit("    goto {L}_done");
    reveal_strlit("    goto {L}_hash");
    reveal_strlit("    goto {L}_one");
    reveal_strlit("    goto {L}_r1");
    reveal_strlit("    goto {L}_rest");
    reveal_strlit("    goto {L}_rh");
    reveal_strlit("{L}:");
    reveal_strlit("{L}_c1:");
    reveal_strlit("{L}_ch:");
    reveal_strlit("{L}_copy:");
    reveal_strlit("{L}_done:");
    reveal_strlit("{L}_hash:");
    reveal_strlit("{L}_one:");
    reveal_strlit("{L}_r1:");
    reveal_strlit("{L}_rest:");
    reveal_strlit("{L}_rh:");
    reveal_strlit("\n");
    assert(join(tl, "\n"@) =~= DECREMENT_BODY@) by {
        reveal_with_fuel(join, 35);
        assert(tl.take(1) =~= seq![tl[0]]);
    }
    lemma_plain_lines(tl);
    lemma_lines_join(tl);
    reveal_strlit("increment");
    reveal_strlit("shift_right");
    reveal_strlit("shift_left");
    reveal_strlit("swap");
    reveal_strlit("pop");
    reveal_strlit("copy");
    reveal_strlit("move");
    reveal_strlit("clear");
    assert("decrement"@.len() != "clear"@.len());
    assert("decrement"@ != "clear"@);
    assert("decrement"@.len() != "move"@.len());
    assert("decrement"@ != "move"@);
    assert("decrement"@.len() != "copy"@.len());
    assert("decrement"@ != "copy"@);
    assert("decrement"@.len() != "pop"@.len());
    assert("decrement"@ != "pop"@);
    assert("decrement"@.len() != "swap"@.len());
    assert("decrement"@ != "swap"@);
    assert("decrement"@.len() != "shift_left"@.len());
    assert("decrement"@ != "shift_left"@);
    assert("decrement"@.len() != "shift_right"@.len());
    assert("decrement"@ != "shift_right"@);
    reveal_strlit("increment");
    assert("decrement"@[0] != "increment"@[0]);
    assert("decrement"@ != "increment"@);
    assert(builtin("decrement"@) == Some(
        super::templates::Builtin { arity: 2, label_prefix: Some("dec"@), usage: super::templates::DECREMENT_USAGE@, body: DECREMENT_BODY@ },
    ));
    reveal_strlit("    add # ");
    reveal_strlit("    add 1 ");
    reveal_strlit("    case ");
    reveal_strlit("    goto ");
    reveal_strlit(":");
    reveal_strlit("_c1");
    reveal_strlit("_c1:");
    reveal_strlit("_ch");
    reveal_strlit("_ch:");
    reveal_strlit("_copy");
    reveal_strlit("_copy:");
    reveal_strlit("_done");
    reveal_strlit("_done:");
    reveal_strlit("_hash");
    reveal_strlit("_hash:");
    reveal_strlit("_one");
    reveal_strlit("_one:");
    reveal_strlit("_r1");
    reveal_strlit("_r1:");
    reveal_strlit("_rest");
    reveal_strlit("_rest:");
    reveal_strlit("_rh");
    reveal_strlit("_rh:");
    let h = seq!['{', 'L', '}'];
    assert(placeholder('L', parts, label) == Some(label));
    assert('1' as u32 == 49 && '2' as u32 == 50 && '0' as u32 == 48);
    assert(placeholder('1', parts, label) == Some(parts[1]));
    assert(placeholder('2', parts, label) == Some(parts[2]));
    let e = Seq::<char>::empty();
    assert(tl[0] =~= e + h + ":"@);
    lemma_inst_line(e, 'L', ":"@, parts, label);
    assert(tl[1] =~= "    case "@ + seq!['{', '1', '}'] + e);
    lemma_inst_line("    case "@, '1', e, parts, label);
    assert(tl[2] =~= "    goto "@ + h + "_rest"@);
    lemma_inst_line("    goto "@, 'L', "_rest"@, parts, label);
    assert(tl[3] =~= "    goto "@ + h + "_one"@);
    lemma_inst_line("    goto "@, 'L', "_one"@, parts, label);
    assert(tl[4] =~= "    goto "@ + h + "_hash"@);
    lemma_inst_line("    goto "@, 'L', "_hash"@, parts, label);
    assert(tl[5] =~= e + h + "_one:"@);
    lemma_inst_line(e, 'L', "_one:"@, parts, label);
    assert(tl[6] =~= "    add # "@ + seq!['{', '2', '}'] + e);
    lemma_inst_line("    add # "@, '2', e, parts, label);
    assert(tl[7] =~= "    goto "@ + h + "_copy"@);
    lemma_inst_line("    goto "@, 'L', "_copy"@, parts, label);
    assert(tl[8] =~= e + h + "_hash:"@);
    lemma_inst_line(e, 'L', "_hash:"@, parts, label);
    assert(tl[9] =~= "    add 1 "@ + seq!['{', '2', '}'] + e);
    lemma_inst_line("    add 1 "@, '2', e, parts, label);
    assert(tl[10] =~= "    goto "@ + h + e);
    lemma_inst_line("    goto "@, 'L', e, parts, label);
    assert(tl[11] =~= e + h + "_copy:"@);
    lemma_inst_line(e, 'L', "_copy:"@, parts, label);
    assert(tl[12] =~= "    case "@ + seq!['{', '1', '}'] + e);
    lemma_inst_line("    case "@, '1', e, parts, label);
    assert(tl[13] =~= "    goto "@ + h + "_rest"@);
    lemma_inst_line("    goto "@, 'L', "_rest"@, parts, label);
    assert(tl[14] =~= "    goto "@ + h + "_c1"@);
    lemma_inst_line("    goto "@, 'L', "_c1"@, parts, label);
    assert(tl[15] =~= "    goto "@ + h + "_ch"@);
    lemma_inst_line("    goto "@, 'L', "_ch"@, parts, label);
    assert(tl[16] =~= e + h + "_c1:"@);
    lemma_inst_line(e, 'L', "_c1:"@, parts, label);
    assert(tl[17] =~= "    add 1 "@ + seq!['{', '2', '}'] + e);
    lemma_inst_line("    add 1 "@, '2', e, parts, label);
    assert(tl[18] =~= "    goto "@ + h + "_copy"@);
    lemma_inst_line("    goto "@, 'L', "_copy"@, parts, label);
    assert(tl[19] =~= e + h + "_ch:"@);
    lemma_inst_line(e, 'L', "_ch:"@, parts, label);
    assert(tl[20] =~= "    add # "@ + seq!['{', '2', '}'] + e);
    lemma_inst_line("    add # "@, '2', e, parts, label);
    assert(tl[21] =~= "    goto "@ + h + "_copy"@);
    lemma_inst_line("    goto "@, 'L', "_copy"@, parts, label);
    assert(tl[22] =~= e + h + "_rest:"@);
    lemma_inst_line(e, 'L', "_rest:"@, parts, label);
    assert(tl[23] =~= "    case "@ + seq!['{', '2', '}'] + e);
    lemma_inst_line("    case "@, '2', e, parts, label);
    assert(tl[24] =~= "    goto "@ + h + "_done"@);
    lemma_inst_line("    goto "@, 'L', "_done"@, parts, label);
    assert(tl[25] =~= "    goto "@ + h + "_r1"@);
    lemma_inst_line("    goto "@, 'L', "_r1"@, parts, label);
    assert(tl[26] =~= "    goto "@ + h + "_rh"@);
    lemma_inst_line("    goto "@, 'L', "_rh"@, parts, label);
    assert(tl[27] =~= e + h + "_r1:"@);
    lemma_inst_line(e, 'L', "_r1:"@, parts, label);
    assert(tl[28] =~= "    add 1 "@ + seq!['{', '1', '}'] + e);
    lemma_inst_line("    add 1 "@, '1', e, parts, label);
    assert(tl[29] =~= "    goto "@ + h + "_rest"@);
    lemma_inst_line("    goto "@, 'L', "_rest"@, parts, label);
    assert(tl[30] =~= e + h + "_rh:"@);
    lemma_inst_line(e, 'L', "_rh:"@, parts, label);
    assert(tl[31] =~= "    add # "@ + seq!['{', '1', '}'] + e);
    lemma_inst_line("    add # "@, '1', e, parts, label);
    assert(tl[32] =~= "    goto "@ + h + "_rest"@);
    lemma_inst_line("    goto "@, 'L', "_rest"@, parts, label);
    assert(tl[33] =~= e + h + "_done:"@);
    lemma_inst_line(e, 'L', "_done:"@, parts, label);
    let x = builtin_expansion("decrement"@, parts, n, c)->Ok_0.lines;
    let ml = decrement_lines(label, parts[1], parts[2]);
    assert(x.len() == 34);
    assert forall|i: int| 0 <= i < 34 implies #[trigger] x[i] =~= ml[i] by {
        assert(x[i] == instantiate(tl[i], parts, label));
    }
    assert(x =~= ml);
}


/// The assembly items that the lines of a call `decrement` read as.
pub open spec fn decrement_items(label: Seq<char>, r1: usize, r2: usize) -> Seq<AsmItem> {
    seq![
        AsmItem::Label(label),
        AsmItem::Case(r1),
        AsmItem::Goto((label + "_rest"@)),
        AsmItem::Goto((label + "_one"@)),
        AsmItem::Goto((label + "_hash"@)),
        AsmItem::Label((label + "_one"@)),
        AsmItem::AddHash(r2),
        AsmItem::Goto((label + "_copy"@)),
        AsmItem::Label((label + "_hash"@)),
        AsmItem::Add1(r2),
        AsmItem::Goto(label),
        AsmItem::Label((label + "_copy"@)),
        AsmItem::Case(r1),
        AsmItem::Goto((label + "_rest"@)),
        AsmItem::Goto((label + "_c1"@)),
        AsmItem::Goto((label + "_ch"@)),
        AsmItem::Label((label + "_c1"@)),
        AsmItem::Add1(r2),
        AsmItem::Goto((label + "_copy"@)),
        AsmItem::Label((label + "_ch"@)),
        AsmItem::AddHash(r2),
        AsmItem::Goto((label + "_copy"@)),
        AsmItem::Label((label + "_rest"@)),
        AsmItem::Case(r2),
        AsmItem::Goto((label + "_done"@)),
        AsmItem::Goto((label + "_r1"@)),
        AsmItem::Goto((label + "_rh"@)),
        AsmItem::Label((label + "_r1"@)),
        AsmItem::Add1(r1),
        AsmItem::Goto((label + "_rest"@)),
        AsmItem::Label((label + "_rh"@)),
        AsmItem::AddHash(r1),
        AsmItem::Goto((label + "_rest"@)),
        AsmItem::Label((label + "_done"@)),
    ]
}


#[verifier::spinoff_prover]
#[verifier::rlimit(80)]
proof fn lemma_decrement_reads_0(label: Seq<char>, a1: Seq<char>, a2: Seq<char>, r1: usize, r2: usize)
    requires
        commands_kept(),
        asm_word(a1),
        asm_word(a2),
        asm_word(label),
        asm_word((label + "_rest"@)),
        asm_word((label + "_one"@)),
        asm_word((label + "_hash"@)),
        asm_word((label + "_copy"@)),
        asm_word((label + "_c1"@)),
        asm_word((label + "_ch"@)),
        asm_word((label + "_done"@)),
        asm_word((label + "_r1"@)),
        asm_word((label + "_rh"@)),
        register_of(a1) == Ok::<usize, Seq<char>>(r1),
        register_of(a2) == Ok::<usize, Seq<char>>(r2),
    ensures
        forall|i: int|
            0 <= i < 10 ==> asm_line((i + 1) as nat, #[trigger] decrement_lines(label, a1, a2)[i]) == Ok::<
                Option<AsmItem>,
                Seq<char>,
            >(Some(decrement_items(label, r1, r2)[i])),
{
    let x = decrement_lines(label, a1, a2);
    let items = decrement_items(label, r1, r2);
    reveal_strlit(":");
    reveal_strlit("    case ");
    reveal_strlit("    goto ");
    reveal_strlit("    add 1 ");
    reveal_strlit("    add # ");
    assert forall|i: int| 0 <= i < 10 implies asm_line((i + 1) as nat, #[trigger] x[i]) == Ok::<
        Option<AsmItem>,
        Seq<char>,
    >(Some(items[i])) by {
        if i == 0 {
            lemma_asm_label(1, label);
        }
        if i == 1 {
            lemma_asm_case(2, a1, r1);
        }
        if i == 2 {
            lemma_asm_goto(3, (label + "_rest"@));
        }
        if i == 3 {
            lemma_asm_goto(4, (label + "_one"@));
        }
        if i == 4 {
            lemma_asm_goto(5, (label + "_hash"@));
        }
        if i == 5 {
            lemma_asm_label(6, (label + "_one"@));
        }
        if i == 6 {
            lemma_asm_add(7, false, a2, r2);
        }
        if i == 7 {
            lemma_asm_goto(8, (label + "_copy"@));
        }
        if i == 8 {
            lemma_asm_label(9, (label + "_hash"@));
        }
        if i == 9 {
            lemma_asm_add(10, true, a2, r2);
        }
    }
}


#[verifier::spinoff_prover]
#[verifier::rlimit(80)]
proof fn lemma_decrement_reads_1(label: Seq<char>, a1: Seq<char>, a2: Seq<char>, r1: usize, r2: usize)
    requires
        commands_kept(),
        asm_word(a1),
        asm_word(a2),
        asm_word(label),
        asm_word((label + "_rest"@)),
        asm_word((label + "_one"@)),
        asm_word((label + "_hash"@)),
        asm_word((label + "_copy"@)),
        asm_word((label + "_c1"@)),
        asm_word((label + "_ch"@)),
        asm_word((label + "_done"@)),
        asm_word((label + "_r1"@)),
        asm_word((label + "_rh"@)),
        register_of(a1) == Ok::<usize, Seq<char>>(r1),
        register_of(a2) == Ok::<usize, Seq<char>>(r2),
    ensures
        forall|i: int|
            10 <= i < 20 ==> asm_line((i + 1) as nat, #[trigger] decrement_lines(label, a1, a2)[i]) == Ok::<
                Option<AsmItem>,
                Seq<char>,
            >(Some(decrement_items(label, r1, r2)[i])),
{
    let x = decrement_lines(label, a1, a2);
    let items = decrement_items(label, r1, r2);
    reveal_strlit(":");
    reveal_strlit("    case ");
    reveal_strlit("    goto ");
    reveal_strlit("    add 1 ");
    reveal_strlit("    add # ");
    assert forall|i: int| 10 <= i < 20 implies asm_line((i + 1) as nat, #[trigger] x[i]) == Ok::<
        Option<AsmItem>,
        Seq<char>,
    >(Some(items[i])) by {
        if i == 10 {
            lemma_asm_goto(11, label);
        }
        if i == 11 {
            lemma_asm_label(12, (label + "_copy"@));
        }
        if i == 12 {
            lemma_asm_case(13, a1, r1);
        }
        if i == 13 {
            lemma_asm_goto(14, (label + "_rest"@));
        }
        if i == 14 {
            lemma_asm_goto(15, (label + "_c1"@));
        }
        if i == 15 {
            lemma_asm_goto(16, (label + "_ch"@));
        }
        if i == 16 {
            lemma_asm_label(17, (label + "_c1"@));
        }
        if i == 17 {
            lemma_asm_add(18, true, a2, r2);
        }
        if i == 18 {
            lemma_asm_goto(19, (label + "_copy"@));
        }
        if i == 19 {
            lemma_asm_label(20, (label + "_ch"@));
        }
    }
}


#[verifier::spinoff_prover]
#[verifier::rlimit(80)]
proof fn lemma_decrement_reads_2(label: Seq<char>, a1: Seq<char>, a2: Seq<char>, r1: usize, r2: usize)
    requires
        commands_kept(),
        asm_word(a1),
        asm_word(a2),
        asm_word(label),
        asm_word((label + "_rest"@)),
        asm_word((label + "_one"@)),
        asm_word((label + "_hash"@)),
        asm_word((label + "_copy"@)),
        asm_word((label + "_c1"@)),
        asm_word((label + "_ch"@)),
        asm_word((label + "_done"@)),
        asm_word((label + "_r1"@)),
        asm_word((label + "_rh"@)),
        register_of(a1) == Ok::<usize, Seq<char>>(r1),
        register_of(a2) == Ok::<usize, Seq<char>>(r2),
    ensures
        forall|i: int|
            20 <= i < 30 ==> asm_line((i + 1) as nat, #[trigger] decrement_lines(label, a1, a2)[i]) == Ok::<
                Option<AsmItem>,
                Seq<char>,
            >(Some(decrement_items(label, r1, r2)[i])),
{
    let x = decrement_lines(label, a1, a2);
    let items = decrement_items(label, r1, r2);
    reveal_strlit(":");
    reveal_strlit("    case ");
    reveal_strlit("    goto ");
    reveal_strlit("    add 1 ");
    reveal_strlit("    add # ");
    assert forall|i: int| 20 <= i < 30 implies asm_line((i + 1) as nat, #[trigger] x[i]) == Ok::<
        Option<AsmItem>,
        Seq<char>,
    >(Some(items[i])) by {
        if i == 20 {
            lemma_asm_add(21, false, a2, r2);
        }
        if i == 21 {
            lemma_asm_goto(22, (label + "_copy"@));
        }
        if i == 22 {
            lemma_asm_label(23, (label + "_rest"@));
        }
        if i == 23 {
            lemma_asm_case(24, a2, r2);
        }
        if i == 24 {
            lemma_asm_goto(25, (label + "_done"@));
        }
        if i == 25 {
            lemma_asm_goto(26, (label + "_r1"@));
        }
        if i == 26 {
            lemma_asm_goto(27, (label + "_rh"@));
        }
        if i == 27 {
            lemma_asm_label(28, (label + "_r1"@));
        }
        if i == 28 {
            lemma_asm_add(29, true, a1, r1);
        }
        if i == 29 {
            lemma_asm_goto(30, (label + "_rest"@));
        }
    }
}


#[verifier::spinoff_prover]
#[verifier::rlimit(80)]
proof fn lemma_decrement_reads_3(label: Seq<char>, a1: Seq<char>, a2: Seq<char>, r1: usize, r2: usize)
    requires
        commands_kept(),
        asm_word(a1),
        asm_word(a2),
        asm_word(label),
        asm_word((label + "_rest"@)),
        asm_word((label + "_one"@)),
        asm_word((label + "_hash"@)),
        asm_word((label + "_copy"@)),
        asm_word((label + "_c1"@)),
        asm_word((label + "_ch"@)),
        asm_word((label + "_done"@)),
        asm_word((label + "_r1"@)),
        asm_word((label + "_rh"@)),
        register_of(a1) == Ok::<usize, Seq<char>>(r1),
        register_of(a2) == Ok::<usize, Seq<char>>(r2),
    ensures
        forall|i: int|
            30 <= i < 34 ==> asm_line((i + 1) as nat, #[trigger] decrement_lines(label, a1, a2)[i]) == Ok::<
                Option<AsmItem>,
                Seq<char>,
            >(Some(decrement_items(label, r1, r2)[i])),
{
    let x = decrement_lines(label, a1, a2);
    let items = decrement_items(label, r1, r2);
    reveal_strlit(":");
    reveal_strlit("    case ");
    reveal_strlit("    goto ");
    reveal_strlit("    add 1 ");
    reveal_strlit("    add # ");
    assert forall|i: int| 30 <= i < 34 implies asm_line((i + 1) as nat, #[trigger] x[i]) == Ok::<
        Option<AsmItem>,
        Seq<char>,
    >(Some(items[i])) by {
        if i == 30 {
            lemma_asm_label(31, (label + "_rh"@));
        }
        if i == 31 {
            lemma_asm_add(32, false, a1, r1);
        }
        if i == 32 {
            lemma_asm_goto(33, (label + "_rest"@));
        }
        if i == 33 {
            lemma_asm_label(34, (label + "_done"@));
        }
    }
}


#[verifier::spinoff_prover]
#[verifier::rlimit(80)]
proof fn lemma_decrement_reads(label: Seq<char>, a1: Seq<char>, a2: Seq<char>, r1: usize, r2: usize)
    requires
        commands_kept(),
        asm_word(a1),
        asm_word(a2),
        asm_word(label),
        asm_word((label + "_rest"@)),
        asm_word((label + "_one"@)),
        asm_word((label + "_hash"@)),
        asm_word((label + "_copy"@)),
        asm_word((label + "_c1"@)),
        asm_word((label + "_ch"@)),
        asm_word((label + "_done"@)),
        asm_word((label + "_r1"@)),
        asm_word((label + "_rh"@)),
        register_of(a1) == Ok::<usize, Seq<char>>(r1),
        register_of(a2) == Ok::<usize, Seq<char>>(r2),
    ensures
        assembly_of(join(decrement_lines(label, a1, a2), "\n"@)) == Ok::<Seq<AsmItem>, Seq<char>>(
            decrement_items(label, r1, r2),
        ),
{
    let x = decrement_lines(label, a1, a2);
    let items = decrement_items(label, r1, r2);
    lemma_word_no_newline(a1);
    lemma_word_no_newline(a2);
    lemma_word_no_newline(label);
    lemma_word_no_newline((label + "_rest"@));
    lemma_word_no_newline((label + "_one"@));
    lemma_word_no_newline((label + "_hash"@));
    lemma_word_no_newline((label + "_copy"@));
    lemma_word_no_newline((label + "_c1"@));
    lemma_word_no_newline((label + "_ch"@));
    lemma_word_no_newline((label + "_done"@));
    lemma_word_no_newline((label + "_r1"@));
    lemma_word_no_newline((label + "_rh"@));
    reveal_strlit(":");
    reveal_strlit("    case ");
    reveal_strlit("    goto ");
    reveal_strlit("    add 1 ");
    reveal_strlit("    add # ");
    lemma_plain_lines(x);
    lemma_decrement_reads_0(label, a1, a2, r1, r2);
    lemma_decrement_reads_1(label, a1, a2, r1, r2);
    lemma_decrement_reads_2(label, a1, a2, r1, r2);
    lemma_decrement_reads_3(label, a1, a2, r1, r2);
    assert(x.len() == items.len());
    assert forall|i: int| 0 <= i < x.len() implies asm_line((i + 1) as nat, #[trigger] x[i]) == Ok::<
        Option<AsmItem>,
        Seq<char>,
    >(Some(items[i])) by {
        assert(asm_line((i + 1) as nat, decrement_lines(label, a1, a2)[i]) == Ok::<Option<AsmItem>, Seq<char>>(Some(decrement_items(label, r1, r2)[i])));
    }
    lemma_assembly_of_lines(x, items);
}


#[verifier::spinoff_prover]
#[verifier::rlimit(80)]
proof fn lemma_decrement_labels_0(l: Seq<char>, r1: usize, r2: usize)
    requires
        l != (l + "_rest"@) && l != (l + "_one"@) && l != (l + "_hash"@) && l != (l + "_copy"@) && l != (l + "_c1"@) && l != (l + "_ch"@) && l != (l + "_done"@) && l != (l + "_r1"@) && l != (l + "_rh"@) && (l + "_rest"@) != (l + "_one"@) && (l + "_rest"@) != (l + "_hash"@) && (l + "_rest"@) != (l + "_copy"@) && (l + "_rest"@) != (l + "_c1"@) && (l + "_rest"@) != (l + "_ch"@) && (l + "_rest"@) != (l + "_done"@) && (l + "_rest"@) != (l + "_r1"@) && (l + "_rest"@) != (l + "_rh"@) && (l + "_one"@) != (l + "_hash"@) && (l + "_one"@) != (l + "_copy"@) && (l + "_one"@) != (l + "_c1"@) && (l + "_one"@) != (l + "_ch"@) && (l + "_one"@) != (l + "_done"@) && (l + "_one"@) != (l + "_r1"@) && (l + "_one"@) != (l + "_rh"@) && (l + "_hash"@) != (l + "_copy"@) && (l + "_hash"@) != (l + "_c1"@) && (l + "_hash"@) != (l + "_ch"@) && (l + "_hash"@) != (l + "_done"@) && (l + "_hash"@) != (l + "_r1"@) && (l + "_hash"@) != (l + "_rh"@) && (l + "_copy"@) != (l + "_c1"@) && (l + "_copy"@) != (l + "_ch"@) && (l + "_copy"@) != (l + "_done"@) && (l + "_copy"@) != (l + "_r1"@) && (l + "_copy"@) != (l + "_rh"@) && (l + "_c1"@) != (l + "_ch"@) && (l + "_c1"@) != (l + "_done"@) && (l + "_c1"@) != (l + "_r1"@) && (l + "_c1"@) != (l + "_rh"@) && (l + "_ch"@) != (l + "_done"@) && (l + "_ch"@) != (l + "_r1"@) && (l + "_ch"@) != (l + "_rh"@) && (l + "_done"@) != (l + "_r1"@) && (l + "_done"@) != (l + "_rh"@) && (l + "_r1"@) != (l + "_rh"@),
        l != halt_label() && (l + "_rest"@) != halt_label() && (l + "_one"@) != halt_label() && (l + "_hash"@) != halt_label() && (l + "_copy"@) != halt_label() && (l + "_c1"@) != halt_label() && (l + "_ch"@) != halt_label() && (l + "_done"@) != halt_label() && (l + "_r1"@) != halt_label() && (l + "_rh"@) != halt_label(),
        position(decrement_items(l, r1, r2), 0) == 0,
        labels_upto(decrement_items(l, r1, r2), 0) == Ok::<Map<Seq<char>, nat>, Seq<char>>(Map::<Seq<char>, nat>::empty()),
    ensures
        position(decrement_items(l, r1, r2), 8) == 6,
        labels_upto(decrement_items(l, r1, r2), 8) == Ok::<Map<Seq<char>, nat>, Seq<char>>(Map::<Seq<char>, nat>::empty().insert(l, 0).insert((l + "_one"@), 4)),
{
    let items = decrement_items(l, r1, r2);
    assert(position(items, 1) == 0);
    assert(position(items, 2) == 1);
    assert(position(items, 3) == 2);
    assert(position(items, 4) == 3);
    assert(position(items, 5) == 4);
    assert(position(items, 6) == 4);
    assert(position(items, 7) == 5);
    assert(position(items, 8) == 6);
    assert(labels_upto(items, 1) == Ok::<Map<Seq<char>, nat>, Seq<char>>(Map::<Seq<char>, nat>::empty().insert(l, 0)));
    assert(labels_upto(items, 2) == Ok::<Map<Seq<char>, nat>, Seq<char>>(Map::<Seq<char>, nat>::empty().insert(l, 0)));
    assert(labels_upto(items, 3) == Ok::<Map<Seq<char>, nat>, Seq<char>>(Map::<Seq<char>, nat>::empty().insert(l, 0)));
    assert(labels_upto(items, 4) == Ok::<Map<Seq<char>, nat>, Seq<char>>(Map::<Seq<char>, nat>::empty().insert(l, 0)));
    assert(labels_upto(items, 5) == Ok::<Map<Seq<char>, nat>, Seq<char>>(Map::<Seq<char>, nat>::empty().insert(l, 0)));
    assert(labels_upto(items, 6) == Ok::<Map<Seq<char>, nat>, Seq<char>>(Map::<Seq<char>, nat>::empty().insert(l, 0).insert((l + "_one"@), 4)));
    assert(labels_upto(items, 7) == Ok::<Map<Seq<char>, nat>, Seq<char>>(Map::<Seq<char>, nat>::empty().insert(l, 0).insert((l + "_one"@), 4)));
    assert(labels_upto(items, 8) == Ok::<Map<Seq<char>, nat>, Seq<char>>(Map::<Seq<char>, nat>::empty().insert(l, 0).insert((l + "_one"@), 4)));
}


#[verifier::spinoff_prover]
#[verifier::rlimit(80)]
proof fn lemma_decrement_labels_1(l: Seq<char>, r1: usize, r2: usize)
    requires
        l != (l + "_rest"@) && l != (l + "_one"@) && l != (l + "_hash"@) && l != (l + "_copy"@) && l != (l + "_c1"@) && l != (l + "_ch"@) && l != (l + "_done"@) && l != (l + "_r1"@) && l != (l + "_rh"@) && (l + "_rest"@) != (l + "_one"@) && (l + "_rest"@) != (l + "_hash"@) && (l + "_rest"@) != (l + "_copy"@) && (l + "_rest"@) != (l + "_c1"@) && (l + "_rest"@) != (l + "_ch"@) && (l + "_rest"@) != (l + "_done"@) && (l + "_rest"@) != (l + "_r1"@) && (l + "_rest"@) != (l + "_rh"@) && (l + "_one"@) != (l + "_hash"@) && (l + "_one"@) != (l + "_copy"@) && (l + "_one"@) != (l + "_c1"@) && (l + "_one"@) != (l + "_ch"@) && (l + "_one"@) != (l + "_done"@) && (l + "_one"@) != (l + "_r1"@) && (l + "_one"@) != (l + "_rh"@) && (l + "_hash"@) != (l + "_copy"@) && (l + "_hash"@) != (l + "_c1"@) && (l + "_hash"@) != (l + "_ch"@) && (l + "_hash"@) != (l + "_done"@) && (l + "_hash"@) != (l + "_r1"@) && (l + "_hash"@) != (l + "_rh"@) && (l + "_copy"@) != (l + "_c1"@) && (l + "_copy"@) != (l + "_ch"@) && (l + "_copy"@) != (l + "_done"@) && (l + "_copy"@) != (l + "_r1"@) && (l + "_copy"@) != (l + "_rh"@) && (l + "_c1"@) != (l + "_ch"@) && (l + "_c1"@) != (l + "_done"@) && (l + "_c1"@) != (l + "_r1"@) && (l + "_c1"@) != (l + "_rh"@) && (l + "_ch"@) != (l + "_done"@) && (l + "_ch"@) != (l + "_r1"@) && (l + "_ch"@) != (l + "_rh"@) && (l + "_done"@) != (l + "_r1"@) && (l + "_done"@) != (l + "_rh"@) && (l + "_r1"@) != (l + "_rh"@),
        l != halt_label() && (l + "_rest"@) != halt_label() && (l + "_one"@) != halt_label() && (l + "_hash"@) != halt_label() && (l + "_copy"@) != halt_label() && (l + "_c1"@) != halt_label() && (l + "_ch"@) != halt_label() && (l + "_done"@) != halt_label() && (l + "_r1"@) != halt_label() && (l + "_rh"@) != halt_label(),
        position(decrement_items(l, r1, r2), 8) == 6,
        labels_upto(decrement_items(l, r1, r2), 8) == Ok::<Map<Seq<char>, nat>, Seq<char>>(Map::<Seq<char>, nat>::empty().insert(l, 0).insert((l + "_one"@), 4)),
    ensures
        position(decrement_items(l, r1, r2), 16) == 12,
        labels_upto(decrement_items(l, r1, r2), 16) == Ok::<Map<Seq<char>, nat>, Seq<char>>(Map::<Seq<char>, nat>::empty().insert(l, 0).insert((l + "_one"@), 4).insert((l + "_hash"@), 6).insert((l + "_copy"@), 8)),
{
    let items = decrement_items(l, r1, r2);
    assert(position(items, 9) == 6);
    assert(position(items, 10) == 7);
    assert(position(items, 11) == 8);
    assert(position(items, 12) == 8);
    assert(position(items, 13) == 9);
    assert(position(items, 14) == 10);
    assert(position(items, 15) == 11);
    assert(position(items, 16) == 12);
    assert(labels_upto(items, 9) == Ok::<Map<Seq<char>, nat>, Seq<char>>(Map::<Seq<char>, nat>::empty().insert(l, 0).insert((l + "_one"@), 4).insert((l + "_hash"@), 6)));
    assert(labels_upto(items, 10) == Ok::<Map<Seq<char>, nat>, Seq<char>>(Map::<Seq<char>, nat>::empty().insert(l, 0).insert((l + "_one"@), 4).insert((l + "_hash"@), 6)));
    assert(labels_upto(items, 11) == Ok::<Map<Seq<char>, nat>, Seq<char>>(Map::<Seq<char>, nat>::empty().insert(l, 0).insert((l + "_one"@), 4).insert((l + "_hash"@), 6)));
    assert(labels_upto(items, 12) == Ok::<Map<Seq<char>, nat>, Seq<char>>(Map::<Seq<char>, nat>::empty().insert(l, 0).insert((l + "_one"@), 4).insert((l + "_hash"@), 6).insert((l + "_copy"@), 8)));
    assert(labels_upto(items, 13) == Ok::<Map<Seq<char>, nat>, Seq<char>>(Map::<Seq<char>, nat>::empty().insert(l, 0).insert((l + "_one"@), 4).insert((l + "_hash"@), 6).insert((l + "_copy"@), 8)));
    assert(labels_upto(items, 14) == Ok::<Map<Seq<char>, nat>, Seq<char>>(Map::<Seq<char>, nat>::empty().insert(l, 0).insert((l + "_one"@), 4).insert((l + "_hash"@), 6).insert((l + "_copy"@), 8)));
    assert(labels_upto(items, 15) == Ok::<Map<Seq<char>, nat>, Seq<char>>(Map::<Seq<char>, nat>::empty().insert(l, 0).insert((l + "_one"@), 4).insert((l + "_hash"@), 6).insert((l + "_copy"@), 8)));
    assert(labels_upto(items, 16) == Ok::<Map<Seq<char>, nat>, Seq<char>>(Map::<Seq<char>, nat>::empty().insert(l, 0).insert((l + "_one"@), 4).insert((l + "_hash"@), 6).insert((l + "_copy"@), 8)));
}


#[verifier::spinoff_prover]
#[verifier::rlimit(80)]
proof fn lemma_decrement_labels_2(l: Seq<char>, r1: usize, r2: usize)
    requires
        l != (l + "_rest"@) && l != (l + "_one"@) && l != (l + "_hash"@) && l != (l + "_copy"@) && l != (l + "_c1"@) && l != (l + "_ch"@) && l != (l + "_done"@) && l != (l + "_r1"@) && l != (l + "_rh"@) && (l + "_rest"@) != (l + "_one"@) && (l + "_rest"@) != (l + "_hash"@) && (l + "_rest"@) != (l + "_copy"@) && (l + "_rest"@) != (l + "_c1"@) && (l + "_rest"@) != (l + "_ch"@) && (l + "_rest"@) != (l + "_done"@) && (l + "_rest"@) != (l + "_r1"@) && (l + "_rest"@) != (l + "_rh"@) && (l + "_one"@) != (l + "_hash"@) && (l + "_one"@) != (l + "_copy"@) && (l + "_one"@) != (l + "_c1"@) && (l + "_one"@) != (l + "_ch"@) && (l + "_one"@) != (l + "_done"@) && (l + "_one"@) != (l + "_r1"@) && (l + "_one"@) != (l + "_rh"@) && (l + "_hash"@) != (l + "_copy"@) && (l + "_hash"@) != (l + "_c1"@) && (l + "_hash"@) != (l + "_ch"@) && (l + "_hash"@) != (l + "_done"@) && (l + "_hash"@) != (l + "_r1"@) && (l + "_hash"@) != (l + "_rh"@) && (l + "_copy"@) != (l + "_c1"@) && (l + "_copy"@) != (l + "_ch"@) && (l + "_copy"@) != (l + "_done"@) && (l + "_copy"@) != (l + "_r1"@) && (l + "_copy"@) != (l + "_rh"@) && (l + "_c1"@) != (l + "_ch"@) && (l + "_c1"@) != (l + "_done"@) && (l + "_c1"@) != (l + "_r1"@) && (l + "_c1"@) != (l + "_rh"@) && (l + "_ch"@) != (l + "_done"@) && (l + "_ch"@) != (l + "_r1"@) && (l + "_ch"@) != (l + "_rh"@) && (l + "_done"@) != (l + "_r1"@) && (l + "_done"@) != (l + "_rh"@) && (l + "_r1"@) != (l + "_rh"@),
        l != halt_label() && (l + "_rest"@) != halt_label() && (l + "_one"@) != halt_label() && (l + "_hash"@) != halt_label() && (l + "_copy"@) != halt_label() && (l + "_c1"@) != halt_label() && (l + "_ch"@) != halt_label() && (l + "_done"@) != halt_label() && (l + "_r1"@) != halt_label() && (l + "_rh"@) != halt_label(),
        position(decrement_items(l, r1, r2), 16) == 12,
        labels_upto(decrement_items(l, r1, r2), 16) == Ok::<Map<Seq<char>, nat>, Seq<char>>(Map::<Seq<char>, nat>::empty().insert(l, 0).insert((l + "_one"@), 4).insert((l + "_hash"@), 6).insert((l + "_copy"@), 8)),
    ensures
        position(decrement_items(l, r1, r2), 24) == 17,
        labels_upto(decrement_items(l, r1, r2), 24) == Ok::<Map<Seq<char>, nat>, Seq<char>>(Map::<Seq<char>, nat>::empty().insert(l, 0).insert((l + "_one"@), 4).insert((l + "_hash"@), 6).insert((l + "_copy"@), 8).insert((l + "_c1"@), 12).insert((l + "_ch"@), 14).insert((l + "_rest"@), 16)),
{
    let items = decrement_items(l, r1, r2);
    assert(position(items, 17) == 12);
    assert(position(items, 18) == 13);
    assert(position(items, 19) == 14);
    assert(position(items, 20) == 14);
    assert(position(items, 21) == 15);
    assert(position(items, 22) == 16);
    assert(position(items, 23) == 16);
    assert(position(items, 24) == 17);
    assert(labels_upto(items, 17) == Ok::<Map<Seq<char>, nat>, Seq<char>>(Map::<Seq<char>, nat>::empty().insert(l, 0).insert((l + "_one"@), 4).insert((l + "_hash"@), 6).insert((l + "_copy"@), 8).insert((l + "_c1"@), 12)));
    assert(labels_upto(items, 18) == Ok::<Map<Seq<char>, nat>, Seq<char>>(Map::<Seq<char>, nat>::empty().insert(l, 0).insert((l + "_one"@), 4).insert((l + "_hash"@), 6).insert((l + "_copy"@), 8).insert((l + "_c1"@), 12)));
    assert(labels_upto(items, 19) == Ok::<Map<Seq<char>, nat>, Seq<char>>(Map::<Seq<char>, nat>::empty().insert(l, 0).insert((l + "_one"@), 4).insert((l + "_hash"@), 6).insert((l + "_copy"@), 8).insert((l + "_c1"@), 12)));
    assert(labels_upto(items, 20) == Ok::<Map<Seq<char>, nat>, Seq<char>>(Map::<Seq<char>, nat>::empty().insert(l, 0).insert((l + "_one"@), 4).insert((l + "_hash"@), 6).insert((l + "_copy"@), 8).insert((l + "_c1"@), 12).insert((l + "_ch"@), 14)));
    assert(labels_upto(items, 21) == Ok::<Map<Seq<char>, nat>, Seq<char>>(Map::<Seq<char>, nat>::empty().insert(l, 0).insert((l + "_one"@), 4).insert((l + "_hash"@), 6).insert((l + "_copy"@), 8).insert((l + "_c1"@), 12).insert((l + "_ch"@), 14)));
    assert(labels_upto(items, 22) == Ok::<Map<Seq<char>, nat>, Seq<char>>(Map::<Seq<char>, nat>::empty().insert(l, 0).insert((l + "_one"@), 4).insert((l + "_hash"@), 6).insert((l + "_copy"@), 8).insert((l + "_c1"@), 12).insert((l + "_ch"@), 14)));
    assert(labels_upto(items, 23) == Ok::<Map<Seq<char>, nat>, Seq<char>>(Map::<Seq<char>, nat>::empty().insert(l, 0).insert((l + "_one"@), 4).insert((l + "_hash"@), 6).insert((l + "_copy"@), 8).insert((l + "_c1"@), 12).insert((l + "_ch"@), 14).insert((l + "_rest"@), 16)));
    assert(labels_upto(items, 24) == Ok::<Map<Seq<char>, nat>, Seq<char>>(Map::<Seq<char>, nat>::empty().insert(l, 0).insert((l + "_one"@), 4).insert((l + "_hash"@), 6).insert((l + "_copy"@), 8).insert((l + "_c1"@), 12).insert((l + "_ch"@), 14).insert((l + "_rest"@), 16)));
}


#[verifier::spinoff_prover]
#[verifier::rlimit(80)]
proof fn lemma_decrement_labels_3(l: Seq<char>, r1: usize, r2: usize)
    requires
        l != (l + "_rest"@) && l != (l + "_one"@) && l != (l + "_hash"@) && l != (l + "_copy"@) && l != (l + "_c1"@) && l != (l + "_ch"@) && l != (l + "_done"@) && l != (l + "_r1"@) && l != (l + "_rh"@) && (l + "_rest"@) != (l + "_one"@) && (l + "_rest"@) != (l + "_hash"@) && (l + "_rest"@) != (l + "_copy"@) && (l + "_rest"@) != (l + "_c1"@) && (l + "_rest"@) != (l + "_ch"@) && (l + "_rest"@) != (l + "_done"@) && (l + "_rest"@) != (l + "_r1"@) && (l + "_rest"@) != (l + "_rh"@) && (l + "_one"@) != (l + "_hash"@) && (l + "_one"@) != (l + "_copy"@) && (l + "_one"@) != (l + "_c1"@) && (l + "_one"@) != (l + "_ch"@) && (l + "_one"@) != (l + "_done"@) && (l + "_one"@) != (l + "_r1"@) && (l + "_one"@) != (l + "_rh"@) && (l + "_hash"@) != (l + "_copy"@) && (l + "_hash"@) != (l + "_c1"@) && (l + "_hash"@) != (l + "_ch"@) && (l + "_hash"@) != (l + "_done"@) && (l + "_hash"@) != (l + "_r1"@) && (l + "_hash"@) != (l + "_rh"@) && (l + "_copy"@) != (l + "_c1"@) && (l + "_copy"@) != (l + "_ch"@) && (l + "_copy"@) != (l + "_done"@) && (l + "_copy"@) != (l + "_r1"@) && (l + "_copy"@) != (l + "_rh"@) && (l + "_c1"@) != (l + "_ch"@) && (l + "_c1"@) != (l + "_done"@) && (l + "_c1"@) != (l + "_r1"@) && (l + "_c1"@) != (l + "_rh"@) && (l + "_ch"@) != (l + "_done"@) && (l + "_ch"@) != (l + "_r1"@) && (l + "_ch"@) != (l + "_rh"@) && (l + "_done"@) != (l + "_r1"@) && (l + "_done"@) != (l + "_rh"@) && (l + "_r1"@) != (l + "_rh"@),
        l != halt_label() && (l + "_rest"@) != halt_label() && (l + "_one"@) != halt_label() && (l + "_hash"@) != halt_label() && (l + "_copy"@) != halt_label() && (l + "_c1"@) != halt_label() && (l + "_ch"@) != halt_label() && (l + "_done"@) != halt_label() && (l + "_r1"@) != halt_label() && (l + "_rh"@) != halt_label(),
        position(decrement_items(l, r1, r2), 24) == 17,
        labels_upto(decrement_items(l, r1, r2), 24) == Ok::<Map<Seq<char>, nat>, Seq<char>>(Map::<Seq<char>, nat>::empty().insert(l, 0).insert((l + "_one"@), 4).insert((l + "_hash"@), 6).insert((l + "_copy"@), 8).insert((l + "_c1"@), 12).insert((l + "_ch"@), 14).insert((l + "_rest"@), 16)),
    ensures
        position(decrement_items(l, r1, r2), 32) == 23,
        labels_upto(decrement_items(l, r1, r2), 32) == Ok::<Map<Seq<char>, nat>, Seq<char>>(Map::<Seq<char>, nat>::empty().insert(l, 0).insert((l + "_one"@), 4).insert((l + "_hash"@), 6).insert((l + "_copy"@), 8).insert((l + "_c1"@), 12).insert((l + "_ch"@), 14).insert((l + "_rest"@), 16).insert((l + "_r1"@), 20).insert((l + "_rh"@), 22)),
{
    let items = decrement_items(l, r1, r2);
    assert(position(items, 25) == 18);
    assert(position(items, 26) == 19);
    assert(position(items, 27) == 20);
    assert(position(items, 28) == 20);
    assert(position(items, 29) == 21);
    assert(position(items, 30) == 22);
    assert(position(items, 31) == 22);
    assert(position(items, 32) == 23);
    assert(labels_upto(items, 25) == Ok::<Map<Seq<char>, nat>, Seq<char>>(Map::<Seq<char>, nat>::empty().insert(l, 0).insert((l + "_one"@), 4).insert((l + "_hash"@), 6).insert((l + "_copy"@), 8).insert((l + "_c1"@), 12).insert((l + "_ch"@), 14).insert((l + "_rest"@), 16)));
    assert(labels_upto(items, 26) == Ok::<Map<Seq<char>, nat>, Seq<char>>(Map::<Seq<char>, nat>::empty().insert(l, 0).insert((l + "_one"@), 4).insert((l + "_hash"@), 6).insert((l + "_copy"@), 8).insert((l + "_c1"@), 12).insert((l + "_ch"@), 14).insert((l + "_rest"@), 16)));
    assert(labels_upto(items, 27) == Ok::<Map<Seq<char>, nat>, Seq<char>>(Map::<Seq<char>, nat>::empty().insert(l, 0).insert((l + "_one"@), 4).insert((l + "_hash"@), 6).insert((l + "_copy"@), 8).insert((l + "_c1"@), 12).insert((l + "_ch"@), 14).insert((l + "_rest"@), 16)));
    assert(labels_upto(items, 28) == Ok::<Map<Seq<char>, nat>, Seq<char>>(Map::<Seq<char>, nat>::empty().insert(l, 0).insert((l + "_one"@), 4).insert((l + "_hash"@), 6).insert((l + "_copy"@), 8).insert((l + "_c1"@), 12).insert((l + "_ch"@), 14).insert((l + "_rest"@), 16).insert((l + "_r1"@), 20)));
    assert(labels_upto(items, 29) == Ok::<Map<Seq<char>, nat>, Seq<char>>(Map::<Seq<char>, nat>::empty().insert(l, 0).insert((l + "_one"@), 4).insert((l + "_hash"@), 6).insert((l + "_copy"@), 8).insert((l + "_c1"@), 12).insert((l + "_ch"@), 14).insert((l + "_rest"@), 16).insert((l + "_r1"@), 20)));
    assert(labels_upto(items, 30) == Ok::<Map<Seq<char>, nat>, Seq<char>>(Map::<Seq<char>, nat>::empty().insert(l, 0).insert((l + "_one"@), 4).insert((l + "_hash"@), 6).insert((l + "_copy"@), 8).insert((l + "_c1"@), 12).insert((l + "_ch"@), 14).insert((l + "_rest"@), 16).insert((l + "_r1"@), 20)));
    assert(labels_upto(items, 31) == Ok::<Map<Seq<char>, nat>, Seq<char>>(Map::<Seq<char>, nat>::empty().insert(l, 0).insert((l + "_one"@), 4).insert((l + "_hash"@), 6).insert((l + "_copy"@), 8).insert((l + "_c1"@), 12).insert((l + "_ch"@), 14).insert((l + "_rest"@), 16).insert((l + "_r1"@), 20).insert((l + "_rh"@), 22)));
    assert(labels_upto(items, 32) == Ok::<Map<Seq<char>, nat>, Seq<char>>(Map::<Seq<char>, nat>::empty().insert(l, 0).insert((l + "_one"@), 4).insert((l + "_hash"@), 6).insert((l + "_copy"@), 8).insert((l + "_c1"@), 12).insert((l + "_ch"@), 14).insert((l + "_rest"@), 16).insert((l + "_r1"@), 20).insert((l + "_rh"@), 22)));
}


#[verifier::spinoff_prover]
#[verifier::rlimit(80)]
proof fn lemma_decrement_labels_4(l: Seq<char>, r1: usize, r2: usize)
    requires
        l != (l + "_rest"@) && l != (l + "_one"@) && l != (l + "_hash"@) && l != (l + "_copy"@) && l != (l + "_c1"@) && l != (l + "_ch"@) && l != (l + "_done"@) && l != (l + "_r1"@) && l != (l + "_rh"@) && (l + "_rest"@) != (l + "_one"@) && (l + "_rest"@) != (l + "_hash"@) && (l + "_rest"@) != (l + "_copy"@) && (l + "_rest"@) != (l + "_c1"@) && (l + "_rest"@) != (l + "_ch"@) && (l + "_rest"@) != (l + "_done"@) && (l + "_rest"@) != (l + "_r1"@) && (l + "_rest"@) != (l + "_rh"@) && (l + "_one"@) != (l + "_hash"@) && (l + "_one"@) != (l + "_copy"@) && (l + "_one"@) != (l + "_c1"@) && (l + "_one"@) != (l + "_ch"@) && (l + "_one"@) != (l + "_done"@) && (l + "_one"@) != (l + "_r1"@) && (l + "_one"@) != (l + "_rh"@) && (l + "_hash"@) != (l + "_copy"@) && (l + "_hash"@) != (l + "_c1"@) && (l + "_hash"@) != (l + "_ch"@) && (l + "_hash"@) != (l + "_done"@) && (l + "_hash"@) != (l + "_r1"@) && (l + "_hash"@) != (l + "_rh"@) && (l + "_copy"@) != (l + "_c1"@) && (l + "_copy"@) != (l + "_ch"@) && (l + "_copy"@) != (l + "_done"@) && (l + "_copy"@) != (l + "_r1"@) && (l + "_copy"@) != (l + "_rh"@) && (l + "_c1"@) != (l + "_ch"@) && (l + "_c1"@) != (l + "_done"@) && (l + "_c1"@) != (l + "_r1"@) && (l + "_c1"@) != (l + "_rh"@) && (l + "_ch"@) != (l + "_done"@) && (l + "_ch"@) != (l + "_r1"@) && (l + "_ch"@) != (l + "_rh"@) && (l + "_done"@) != (l + "_r1"@) && (l + "_done"@) != (l + "_rh"@) && (l + "_r1"@) != (l + "_rh"@),
        l != halt_label() && (l + "_rest"@) != halt_label() && (l + "_one"@) != halt_label() && (l + "_hash"@) != halt_label() && (l + "_copy"@) != halt_label() && (l + "_c1"@) != halt_label() && (l + "_ch"@) != halt_label() && (l + "_done"@) != halt_label() && (l + "_r1"@) != halt_label() && (l + "_rh"@) != halt_label(),
        position(decrement_items(l, r1, r2), 32) == 23,
        labels_upto(decrement_items(l, r1, r2), 32) == Ok::<Map<Seq<char>, nat>, Seq<char>>(Map::<Seq<char>, nat>::empty().insert(l, 0).insert((l + "_one"@), 4).insert((l + "_hash"@), 6).insert((l + "_copy"@), 8).insert((l + "_c1"@), 12).insert((l + "_ch"@), 14).insert((l + "_rest"@), 16).insert((l + "_r1"@), 20).insert((l + "_rh"@), 22)),
    ensures
        position(decrement_items(l, r1, r2), 34) == 24,
        labels_upto(decrement_items(l, r1, r2), 34) == Ok::<Map<Seq<char>, nat>, Seq<char>>(Map::<Seq<char>, nat>::empty().insert(l, 0).insert((l + "_one"@), 4).insert((l + "_hash"@), 6).insert((l + "_copy"@), 8).insert((l + "_c1"@), 12).insert((l + "_ch"@), 14).insert((l + "_rest"@), 16).insert((l + "_r1"@), 20).insert((l + "_rh"@), 22).insert((l + "_done"@), 24)),
{
    let items = decrement_items(l, r1, r2);
    assert(position(items, 33) == 24);
    assert(position(items, 34) == 24);
    assert(labels_upto(items, 33) == Ok::<Map<Seq<char>, nat>, Seq<char>>(Map::<Seq<char>, nat>::empty().insert(l, 0).insert((l + "_one"@), 4).insert((l + "_hash"@), 6).insert((l + "_copy"@), 8).insert((l + "_c1"@), 12).insert((l + "_ch"@), 14).insert((l + "_rest"@), 16).insert((l + "_r1"@), 20).insert((l + "_rh"@), 22)));
    assert(labels_upto(items, 34) == Ok::<Map<Seq<char>, nat>, Seq<char>>(Map::<Seq<char>, nat>::empty().insert(l, 0).insert((l + "_one"@), 4).insert((l + "_hash"@), 6).insert((l + "_copy"@), 8).insert((l + "_c1"@), 12).insert((l + "_ch"@), 14).insert((l + "_rest"@), 16).insert((l + "_r1"@), 20).insert((l + "_rh"@), 22).insert((l + "_done"@), 24)));
}


#[verifier::spinoff_prover]
#[verifier::rlimit(80)]
proof fn lemma_decrement_resolve_0(l: Seq<char>, r1: usize, r2: usize, t: Map<Seq<char>, nat>)
    requires
        t.contains_key(l) && t[l] == 0,
        t.contains_key((l + "_rest"@)) && t[(l + "_rest"@)] == 16,
        t.contains_key((l + "_one"@)) && t[(l + "_one"@)] == 4,
        t.contains_key((l + "_hash"@)) && t[(l + "_hash"@)] == 6,
        t.contains_key((l + "_copy"@)) && t[(l + "_copy"@)] == 8,
        t.contains_key((l + "_c1"@)) && t[(l + "_c1"@)] == 12,
        t.contains_key((l + "_ch"@)) && t[(l + "_ch"@)] == 14,
        t.contains_key((l + "_done"@)) && t[(l + "_done"@)] == 24,
        t.contains_key((l + "_r1"@)) && t[(l + "_r1"@)] == 20,
        t.contains_key((l + "_rh"@)) && t[(l + "_rh"@)] == 22,
        resolve_upto(decrement_items(l, r1, r2), t, 0) == Ok::<Seq<Instruction>, Seq<char>>(decrement_program(r1, r2).take(0)),
    ensures
        resolve_upto(decrement_items(l, r1, r2), t, 8) == Ok::<Seq<Instruction>, Seq<char>>(decrement_program(r1, r2).take(6)),
{
    let items = decrement_items(l, r1, r2);
    let p = decrement_program(r1, r2);
    assert(p =~= seq![
            Instruction::Case(r1),
            Instruction::Forward(15),
            Instruction::Forward(2),
            Instruction::Forward(3),
            Instruction::AddHash(r2),
            Instruction::Forward(3),
            Instruction::AddOne(r2),
            Instruction::Backward(7),
            Instruction::Case(r1),
            Instruction::Forward(7),
            Instruction::Forward(2),
            Instruction::Forward(3),
            Instruction::AddOne(r2),
            Instruction::Backward(5),
            Instruction::AddHash(r2),
            Instruction::Backward(7),
            Instruction::Case(r2),
            Instruction::Forward(7),
            Instruction::Forward(2),
            Instruction::Forward(3),
            Instruction::AddOne(r1),
            Instruction::Backward(5),
            Instruction::AddHash(r1),
            Instruction::Backward(7),
        ]);
    assert forall|k: int| 0 <= k < 24 implies #[trigger] p.take(k).push(p[k]) =~= p.take(k + 1) by {}
    assert(super::jump((l + "_rest"@), 16, 1) == Ok::<Instruction, Seq<char>>(Instruction::Forward(15)));
    assert(super::jump((l + "_one"@), 4, 2) == Ok::<Instruction, Seq<char>>(Instruction::Forward(2)));
    assert(super::jump((l + "_hash"@), 6, 3) == Ok::<Instruction, Seq<char>>(Instruction::Forward(3)));
    assert(super::jump((l + "_copy"@), 8, 5) == Ok::<Instruction, Seq<char>>(Instruction::Forward(3)));
    assert(resolve_upto(items, t, 1) == Ok::<Seq<Instruction>, Seq<char>>(p.take(0)));
    assert(resolve_upto(items, t, 2) == Ok::<Seq<Instruction>, Seq<char>>(p.take(1)));
    assert(resolve_upto(items, t, 3) == Ok::<Seq<Instruction>, Seq<char>>(p.take(2)));
    assert(resolve_upto(items, t, 4) == Ok::<Seq<Instruction>, Seq<char>>(p.take(3)));
    assert(resolve_upto(items, t, 5) == Ok::<Seq<Instruction>, Seq<char>>(p.take(4)));
    assert(resolve_upto(items, t, 6) == Ok::<Seq<Instruction>, Seq<char>>(p.take(4)));
    assert(resolve_upto(items, t, 7) == Ok::<Seq<Instruction>, Seq<char>>(p.take(5)));
    assert(resolve_upto(items, t, 8) == Ok::<Seq<Instruction>, Seq<char>>(p.take(6)));
}


#[verifier::spinoff_prover]
#[verifier::rlimit(80)]
proof fn lemma_decrement_resolve_1(l: Seq<char>, r1: usize, r2: usize, t: Map<Seq<char>, nat>)
    requires
        t.contains_key(l) && t[l] == 0,
        t.contains_key((l + "_rest"@)) && t[(l + "_rest"@)] == 16,
        t.contains_key((l + "_one"@)) && t[(l + "_one"@)] == 4,
        t.contains_key((l + "_hash"@)) && t[(l + "_hash"@)] == 6,
        t.contains_key((l + "_copy"@)) && t[(l + "_copy"@)] == 8,
        t.contains_key((l + "_c1"@)) && t[(l + "_c1"@)] == 12,
        t.contains_key((l + "_ch"@)) && t[(l + "_ch"@)] == 14,
        t.contains_key((l + "_done"@)) && t[(l + "_done"@)] == 24,
        t.contains_key((l + "_r1"@)) && t[(l + "_r1"@)] == 20,
        t.contains_key((l + "_rh"@)) && t[(l + "_rh"@)] == 22,
        resolve_upto(decrement_items(l, r1, r2), t, 8) == Ok::<Seq<Instruction>, Seq<char>>(decrement_program(r1, r2).take(6)),
    ensures
        resolve_upto(decrement_items(l, r1, r2), t, 16) == Ok::<Seq<Instruction>, Seq<char>>(decrement_program(r1, r2).take(12)),
{
    let items = decrement_items(l, r1, r2);
    let p = decrement_program(r1, r2);
    assert(p =~= seq![
            Instruction::Case(r1),
            Instruction::Forward(15),
            Instruction::Forward(2),
            Instruction::Forward(3),
            Instruction::AddHash(r2),
            Instruction::Forward(3),
            Instruction::AddOne(r2),
            Instruction::Backward(7),
            Instruction::Case(r1),
            Instruction::Forward(7),
            Instruction::Forward(2),
            Instruction::Forward(3),
            Instruction::AddOne(r2),
            Instruction::Backward(5),
            Instruction::AddHash(r2),
            Instruction::Backward(7),
            Instruction::Case(r2),
            Instruction::Forward(7),
            Instruction::Forward(2),
            Instruction::Forward(3),
            Instruction::AddOne(r1),
            Instruction::Backward(5),
            Instruction::AddHash(r1),
            Instruction::Backward(7),
        ]);
    assert forall|k: int| 0 <= k < 24 implies #[trigger] p.take(k).push(p[k]) =~= p.take(k + 1) by {}
    assert(super::jump(l, 0, 7) == Ok::<Instruction, Seq<char>>(Instruction::Backward(7)));
    assert(super::jump((l + "_rest"@), 16, 9) == Ok::<Instruction, Seq<char>>(Instruction::Forward(7)));
    assert(super::jump((l + "_c1"@), 12, 10) == Ok::<Instruction, Seq<char>>(Instruction::Forward(2)));
    assert(super::jump((l + "_ch"@), 14, 11) == Ok::<Instruction, Seq<char>>(Instruction::Forward(3)));
    assert(resolve_upto(items, t, 9) == Ok::<Seq<Instruction>, Seq<char>>(p.take(6)));
    assert(resolve_upto(items, t, 10) == Ok::<Seq<Instruction>, Seq<char>>(p.take(7)));
    assert(resolve_upto(items, t, 11) == Ok::<Seq<Instruction>, Seq<char>>(p.take(8)));
    assert(resolve_upto(items, t, 12) == Ok::<Seq<Instruction>, Seq<char>>(p.take(8)));
    assert(resolve_upto(items, t, 13) == Ok::<Seq<Instruction>, Seq<char>>(p.take(9)));
    assert(resolve_upto(items, t, 14) == Ok::<Seq<Instruction>, Seq<char>>(p.take(10)));
    assert(resolve_upto(items, t, 15) == Ok::<Seq<Instruction>, Seq<char>>(p.take(11)));
    assert(resolve_upto(items, t, 16) == Ok::<Seq<Instruction>, Seq<char>>(p.take(12)));
}


#[verifier::spinoff_prover]
#[verifier::rlimit(80)]
proof fn lemma_decrement_resolve_2(l: Seq<char>, r1: usize, r2: usize, t: Map<Seq<char>, nat>)
    requires
        t.contains_key(l) && t[l] == 0,
        t.contains_key((l + "_rest"@)) && t[(l + "_rest"@)] == 16,
        t.contains_key((l + "_one"@)) && t[(l + "_one"@)] == 4,
        t.contains_key((l + "_hash"@)) && t[(l + "_hash"@)] == 6,
        t.contains_key((l + "_copy"@)) && t[(l + "_copy"@)] == 8,
        t.contains_key((l + "_c1"@)) && t[(l + "_c1"@)] == 12,
        t.contains_key((l + "_ch"@)) && t[(l + "_ch"@)] == 14,
        t.contains_key((l + "_done"@)) && t[(l + "_done"@)] == 24,
        t.contains_key((l + "_r1"@)) && t[(l + "_r1"@)] == 20,
        t.contains_key((l + "_rh"@)) && t[(l + "_rh"@)] == 22,
        resolve_upto(decrement_items(l, r1, r2), t, 16) == Ok::<Seq<Instruction>, Seq<char>>(decrement_program(r1, r2).take(12)),
    ensures
        resolve_upto(decrement_items(l, r1, r2), t, 24) == Ok::<Seq<Instruction>, Seq<char>>(decrement_program(r1, r2).take(17)),
{
    let items = decrement_items(l, r1, r2);
    let p = decrement_program(r1, r2);
    assert(p =~= seq![
            Instruction::Case(r1),
            Instruction::Forward(15),
            Instruction::Forward(2),
            Instruction::Forward(3),
            Instruction::AddHash(r2),
            Instruction::Forward(3),
            Instruction::AddOne(r2),
            Instruction::Backward(7),
            Instruction::Case(r1),
            Instruction::Forward(7),
            Instruction::Forward(2),
            Instruction::Forward(3),
            Instruction::AddOne(r2),
            Instruction::Backward(5),
            Instruction::AddHash(r2),
            Instruction::Backward(7),
            Instruction::Case(r2),
            Instruction::Forward(7),
            Instruction::Forward(2),
            Instruction::Forward(3),
            Instruction::AddOne(r1),
            Instruction::Backward(5),
            Instruction::AddHash(r1),
            Instruction::Backward(7),
        ]);
    assert forall|k: int| 0 <= k < 24 implies #[trigger] p.take(k).push(p[k]) =~= p.take(k + 1) by {}
    assert(super::jump((l + "_copy"@), 8, 13) == Ok::<Instruction, Seq<char>>(Instruction::Backward(5)));
    assert(super::jump((l + "_copy"@), 8, 15) == Ok::<Instruction, Seq<char>>(Instruction::Backward(7)));
    assert(resolve_upto(items, t, 17) == Ok::<Seq<Instruction>, Seq<char>>(p.take(12)));
    assert(resolve_upto(items, t, 18) == Ok::<Seq<Instruction>, Seq<char>>(p.take(13)));
    assert(resolve_upto(items, t, 19) == Ok::<Seq<Instruction>, Seq<char>>(p.take(14)));
    assert(resolve_upto(items, t, 20) == Ok::<Seq<Instruction>, Seq<char>>(p.take(14)));
    assert(resolve_upto(items, t, 21) == Ok::<Seq<Instruction>, Seq<char>>(p.take(15)));
    assert(resolve_upto(items, t, 22) == Ok::<Seq<Instruction>, Seq<char>>(p.take(16)));
    assert(resolve_upto(items, t, 23) == Ok::<Seq<Instruction>, Seq<char>>(p.take(16)));
    assert(resolve_upto(items, t, 24) == Ok::<Seq<Instruction>, Seq<char>>(p.take(17)));
}


#[verifier::spinoff_prover]
#[verifier::rlimit(80)]
proof fn lemma_decrement_resolve_3(l: Seq<char>, r1: usize, r2: usize, t: Map<Seq<char>, nat>)
    requires
        t.contains_key(l) && t[l] == 0,
        t.contains_key((l + "_rest"@)) && t[(l + "_rest"@)] == 16,
        t.contains_key((l + "_one"@)) && t[(l + "_one"@)] == 4,
        t.contains_key((l + "_hash"@)) && t[(l + "_hash"@)] == 6,
        t.contains_key((l + "_copy"@)) && t[(l + "_copy"@)] == 8,
        t.contains_key((l + "_c1"@)) && t[(l + "_c1"@)] == 12,
        t.contains_key((l + "_ch"@)) && t[(l + "_ch"@)] == 14,
        t.contains_key((l + "_done"@)) && t[(l + "_done"@)] == 24,
        t.contains_key((l + "_r1"@)) && t[(l + "_r1"@)] == 20,
        t.contains_key((l + "_rh"@)) && t[(l + "_rh"@)] == 22,
        resolve_upto(decrement_items(l, r1, r2), t, 24) == Ok::<Seq<Instruction>, Seq<char>>(decrement_program(r1, r2).take(17)),
    ensures
        resolve_upto(decrement_items(l, r1, r2), t, 32) == Ok::<Seq<Instruction>, Seq<char>>(decrement_program(r1, r2).take(23)),
{
    let items = decrement_items(l, r1, r2);
    let p = decrement_program(r1, r2);
    assert(p =~= seq![
            Instruction::Case(r1),
            Instruction::Forward(15),
            Instruction::Forward(2),
            Instruction::Forward(3),
            Instruction::AddHash(r2),
            Instruction::Forward(3),
            Instruction::AddOne(r2),
            Instruction::Backward(7),
            Instruction::Case(r1),
            Instruction::Forward(7),
            Instruction::Forward(2),
            Instruction::Forward(3),
            Instruction::AddOne(r2),
            Instruction::Backward(5),
            Instruction::AddHash(r2),
            Instruction::Backward(7),
            Instruction::Case(r2),
            Instruction::Forward(7),
            Instruction::Forward(2),
            Instruction::Forward(3),
            Instruction::AddOne(r1),
            Instruction::Backward(5),
            Instruction::AddHash(r1),
            Instruction::Backward(7),
        ]);
    assert forall|k: int| 0 <= k < 24 implies #[trigger] p.take(k).push(p[k]) =~= p.take(k + 1) by {}
    assert(super::jump((l + "_done"@), 24, 17) == Ok::<Instruction, Seq<char>>(Instruction::Forward(7)));
    assert(super::jump((l + "_r1"@), 20, 18) == Ok::<Instruction, Seq<char>>(Instruction::Forward(2)));
    assert(super::jump((l + "_rh"@), 22, 19) == Ok::<Instruction, Seq<char>>(Instruction::Forward(3)));
    assert(super::jump((l + "_rest"@), 16, 21) == Ok::<Instruction, Seq<char>>(Instruction::Backward(5)));
    assert(resolve_upto(items, t, 25) == Ok::<Seq<Instruction>, Seq<char>>(p.take(18)));
    assert(resolve_upto(items, t, 26) == Ok::<Seq<Instruction>, Seq<char>>(p.take(19)));
    assert(resolve_upto(items, t, 27) == Ok::<Seq<Instruction>, Seq<char>>(p.take(20)));
    assert(resolve_upto(items, t, 28) == Ok::<Seq<Instruction>, Seq<char>>(p.take(20)));
    assert(resolve_upto(items, t, 29) == Ok::<Seq<Instruction>, Seq<char>>(p.take(21)));
    assert(resolve_upto(items, t, 30) == Ok::<Seq<Instruction>, Seq<char>>(p.take(22)));
    assert(resolve_upto(items, t, 31) == Ok::<Seq<Instruction>, Seq<char>>(p.take(22)));
    assert(resolve_upto(items, t, 32) == Ok::<Seq<Instruction>, Seq<char>>(p.take(23)));
}


#[verifier::spinoff_prover]
#[verifier::rlimit(80)]
proof fn lemma_decrement_resolve_4(l: Seq<char>, r1: usize, r2: usize, t: Map<Seq<char>, nat>)
    requires
        t.contains_key(l) && t[l] == 0,
        t.contains_key((l + "_rest"@)) && t[(l + "_rest"@)] == 16,
        t.contains_key((l + "_one"@)) && t[(l + "_one"@)] == 4,
        t.contains_key((l + "_hash"@)) && t[(l + "_hash"@)] == 6,
        t.contains_key((l + "_copy"@)) && t[(l + "_copy"@)] == 8,
        t.contains_key((l + "_c1"@)) && t[(l + "_c1"@)] == 12,
        t.contains_key((l + "_ch"@)) && t[(l + "_ch"@)] == 14,
        t.contains_key((l + "_done"@)) && t[(l + "_done"@)] == 24,
        t.contains_key((l + "_r1"@)) && t[(l + "_r1"@)] == 20,
        t.contains_key((l + "_rh"@)) && t[(l + "_rh"@)] == 22,
        resolve_upto(decrement_items(l, r1, r2), t, 32) == Ok::<Seq<Instruction>, Seq<char>>(decrement_program(r1, r2).take(23)),
    ensures
        resolve_upto(decrement_items(l, r1, r2), t, 34) == Ok::<Seq<Instruction>, Seq<char>>(decrement_program(r1, r2).take(24)),
{
    let items = decrement_items(l, r1, r2);
    let p = decrement_program(r1, r2);
    assert(p =~= seq![
            Instruction::Case(r1),
            Instruction::Forward(15),
            Instruction::Forward(2),
            Instruction::Forward(3),
            Instruction::AddHash(r2),
            Instruction::Forward(3),
            Instruction::AddOne(r2),
            Instruction::Backward(7),
            Instruction::Case(r1),
            Instruction::Forward(7),
            Instruction::Forward(2),
            Instruction::Forward(3),
            Instruction::AddOne(r2),
            Instruction::Backward(5),
            Instruction::AddHash(r2),
            Instruction::Backward(7),
            Instruction::Case(r2),
            Instruction::Forward(7),
            Instruction::Forward(2),
            Instruction::Forward(3),
            Instruction::AddOne(r1),
            Instruction::Backward(5),
            Instruction::AddHash(r1),
            Instruction::Backward(7),
        ]);
    assert forall|k: int| 0 <= k < 24 implies #[trigger] p.take(k).push(p[k]) =~= p.take(k + 1) by {}
    assert(super::jump((l + "_rest"@), 16, 23) == Ok::<Instruction, Seq<char>>(Instruction::Backward(7)));
    assert(resolve_upto(items, t, 33) == Ok::<Seq<Instruction>, Seq<char>>(p.take(24)));
    assert(resolve_upto(items, t, 34) == Ok::<Seq<Instruction>, Seq<char>>(p.take(24)));
}


#[verifier::spinoff_prover]
#[verifier::rlimit(80)]
proof fn lemma_decrement_resolves(l: Seq<char>, r1: usize, r2: usize)
    requires
        l != (l + "_rest"@) && l != (l + "_one"@) && l != (l + "_hash"@) && l != (l + "_copy"@) && l != (l + "_c1"@) && l != (l + "_ch"@) && l != (l + "_done"@) && l != (l + "_r1"@) && l != (l + "_rh"@) && (l + "_rest"@) != (l + "_one"@) && (l + "_rest"@) != (l + "_hash"@) && (l + "_rest"@) != (l + "_copy"@) && (l + "_rest"@) != (l + "_c1"@) && (l + "_rest"@) != (l + "_ch"@) && (l + "_rest"@) != (l + "_done"@) && (l + "_rest"@) != (l + "_r1"@) && (l + "_rest"@) != (l + "_rh"@) && (l + "_one"@) != (l + "_hash"@) && (l + "_one"@) != (l + "_copy"@) && (l + "_one"@) != (l + "_c1"@) && (l + "_one"@) != (l + "_ch"@) && (l + "_one"@) != (l + "_done"@) && (l + "_one"@) != (l + "_r1"@) && (l + "_one"@) != (l + "_rh"@) && (l + "_hash"@) != (l + "_copy"@) && (l + "_hash"@) != (l + "_c1"@) && (l + "_hash"@) != (l + "_ch"@) && (l + "_hash"@) != (l + "_done"@) && (l + "_hash"@) != (l + "_r1"@) && (l + "_hash"@) != (l + "_rh"@) && (l + "_copy"@) != (l + "_c1"@) && (l + "_copy"@) != (l + "_ch"@) && (l + "_copy"@) != (l + "_done"@) && (l + "_copy"@) != (l + "_r1"@) && (l + "_copy"@) != (l + "_rh"@) && (l + "_c1"@) != (l + "_ch"@) && (l + "_c1"@) != (l + "_done"@) && (l + "_c1"@) != (l + "_r1"@) && (l + "_c1"@) != (l + "_rh"@) && (l + "_ch"@) != (l + "_done"@) && (l + "_ch"@) != (l + "_r1"@) && (l + "_ch"@) != (l + "_rh"@) && (l + "_done"@) != (l + "_r1"@) && (l + "_done"@) != (l + "_rh"@) && (l + "_r1"@) != (l + "_rh"@),
        l != halt_label() && (l + "_rest"@) != halt_label() && (l + "_one"@) != halt_label() && (l + "_hash"@) != halt_label() && (l + "_copy"@) != halt_label() && (l + "_c1"@) != halt_label() && (l + "_ch"@) != halt_label() && (l + "_done"@) != halt_label() && (l + "_r1"@) != halt_label() && (l + "_rh"@) != halt_label(),
    ensures
        resolved(decrement_items(l, r1, r2)) == Ok::<Seq<Instruction>, Seq<char>>(decrement_program(r1, r2)),
{
    let items = decrement_items(l, r1, r2);
    let p = decrement_program(r1, r2);
    assert(p =~= seq![
            Instruction::Case(r1),
            Instruction::Forward(15),
            Instruction::Forward(2),
            Instruction::Forward(3),
            Instruction::AddHash(r2),
            Instruction::Forward(3),
            Instruction::AddOne(r2),
            Instruction::Backward(7),
            Instruction::Case(r1),
            Instruction::Forward(7),
            Instruction::Forward(2),
            Instruction::Forward(3),
            Instruction::AddOne(r2),
            Instruction::Backward(5),
            Instruction::AddHash(r2),
            Instruction::Backward(7),
            Instruction::Case(r2),
            Instruction::Forward(7),
            Instruction::Forward(2),
            Instruction::Forward(3),
            Instruction::AddOne(r1),
            Instruction::Backward(5),
            Instruction::AddHash(r1),
            Instruction::Backward(7),
        ]);
    assert(position(items, 0) == 0);
    assert(labels_upto(items, 0) == Ok::<Map<Seq<char>, nat>, Seq<char>>(Map::<Seq<char>, nat>::empty()));
    lemma_decrement_labels_0(l, r1, r2);
    lemma_decrement_labels_1(l, r1, r2);
    lemma_decrement_labels_2(l, r1, r2);
    lemma_decrement_labels_3(l, r1, r2);
    lemma_decrement_labels_4(l, r1, r2);
    let t = Map::<Seq<char>, nat>::empty().insert(l, 0).insert((l + "_one"@), 4).insert((l + "_hash"@), 6).insert((l + "_copy"@), 8).insert((l + "_c1"@), 12).insert((l + "_ch"@), 14).insert((l + "_rest"@), 16).insert((l + "_r1"@), 20).insert((l + "_rh"@), 22).insert((l + "_done"@), 24).insert(halt_label(), 24);
    assert(label_table(items) == Ok::<Map<Seq<char>, nat>, Seq<char>>(t));
    assert(p.take(0) =~= Seq::<Instruction>::empty());
    assert(resolve_upto(items, t, 0) == Ok::<Seq<Instruction>, Seq<char>>(p.take(0)));
    lemma_decrement_resolve_0(l, r1, r2, t);
    lemma_decrement_resolve_1(l, r1, r2, t);
    lemma_decrement_resolve_2(l, r1, r2, t);
    lemma_decrement_resolve_3(l, r1, r2, t);
    lemma_decrement_resolve_4(l, r1, r2, t);
    assert(p.take(24) =~= p);
}


/// The template of `decrement`, for a call whose arguments name the registers it
/// uses, becomes lines that assemble to `decrement_program(r1, r2)`; the call uses up one label
/// number.
pub proof fn lemma_decrement_template(parts: Seq<Seq<char>>, n: nat, c: usize, r1: usize, r2: usize)
    requires
        commands_kept(),
        parts.len() == 3,
        asm_word(parts[1]),
        asm_word(parts[2]),
        register_of(parts[1]) == Ok::<usize, Seq<char>>(r1),
        register_of(parts[2]) == Ok::<usize, Seq<char>>(r2),
    ensures
        builtin_expansion("decrement"@, parts, n, c) == Ok::<Expansion, Seq<char>>(
            Expansion {
                lines: builtin_expansion("decrement"@, parts, n, c)->Ok_0.lines,
                changed: true,
                counter: next_label(c),
            },
        ),
        assembled(join(builtin_expansion("decrement"@, parts, n, c)->Ok_0.lines, "\n"@)) == Ok::<
            Seq<Instruction>,
            Seq<char>,
        >(decrement_program(r1, r2)),
{
    reveal_strlit("dec");
    reveal_strlit("_rest");
    reveal_strlit("_one");
    reveal_strlit("_hash");
    reveal_strlit("_copy");
    reveal_strlit("_c1");
    reveal_strlit("_ch");
    reveal_strlit("_done");
    reveal_strlit("_r1");
    reveal_strlit("_rh");
    let l = label_text("dec"@, c);
    let e = Seq::<char>::empty();
    assert(l + e =~= l);
    lemma_suffix_word("dec"@, c, e);
    lemma_suffix_word("dec"@, c, "_rest"@);
    lemma_suffix_word("dec"@, c, "_one"@);
    lemma_suffix_word("dec"@, c, "_hash"@);
    lemma_suffix_word("dec"@, c, "_copy"@);
    lemma_suffix_word("dec"@, c, "_c1"@);
    lemma_suffix_word("dec"@, c, "_ch"@);
    lemma_suffix_word("dec"@, c, "_done"@);
    lemma_suffix_word("dec"@, c, "_r1"@);
    lemma_suffix_word("dec"@, c, "_rh"@);
    lemma_suffix_not_halt("dec"@, c, e);
    lemma_suffix_not_halt("dec"@, c, "_rest"@);
    lemma_suffix_not_halt("dec"@, c, "_one"@);
    lemma_suffix_not_halt("dec"@, c, "_hash"@);
    lemma_suffix_not_halt("dec"@, c, "_copy"@);
    lemma_suffix_not_halt("dec"@, c, "_c1"@);
    lemma_suffix_not_halt("dec"@, c, "_ch"@);
    lemma_suffix_not_halt("dec"@, c, "_done"@);
    lemma_suffix_not_halt("dec"@, c, "_r1"@);
    lemma_suffix_not_halt("dec"@, c, "_rh"@);
    assert(e.len() != "_rest"@.len());
    lemma_suffix_distinct(l, e, "_rest"@);
    assert(e.len() != "_one"@.len());
    lemma_suffix_distinct(l, e, "_one"@);
    assert(e.len() != "_hash"@.len());
    lemma_suffix_distinct(l, e, "_hash"@);
    assert(e.len() != "_copy"@.len());
    lemma_suffix_distinct(l, e, "_copy"@);
    assert(e.len() != "_c1"@.len());
    lemma_suffix_distinct(l, e, "_c1"@);
    assert(e.len() != "_ch"@.len());
    lemma_suffix_distinct(l, e, "_ch"@);
    assert(e.len() != "_done"@.len());
    lemma_suffix_distinct(l, e, "_done"@);
    assert(e.len() != "_r1"@.len());
    lemma_suffix_distinct(l, e, "_r1"@);
    assert(e.len() != "_rh"@.len());
    lemma_suffix_distinct(l, e, "_rh"@);
    assert("_rest"@.len() != "_one"@.len());
    lemma_suffix_distinct(l, "_rest"@, "_one"@);
    assert("_rest"@[1] != "_hash"@[1]);
    lemma_suffix_distinct(l, "_rest"@, "_hash"@);
    assert("_rest"@[1] != "_copy"@[1]);
    lemma_suffix_distinct(l, "_rest"@, "_copy"@);
    assert("_rest"@.len() != "_c1"@.len());
    lemma_suffix_distinct(l, "_rest"@, "_c1"@);
    assert("_rest"@.len() != "_ch"@.len());
    lemma_suffix_distinct(l, "_rest"@, "_ch"@);
    assert("_rest"@[1] != "_done"@[1]);
    lemma_suffix_distinct(l, "_rest"@, "_done"@);
    assert("_rest"@.len() != "_r1"@.len());
    lemma_suffix_distinct(l, "_rest"@, "_r1"@);
    assert("_rest"@.len() != "_rh"@.len());
    lemma_suffix_distinct(l, "_rest"@, "_rh"@);
    assert("_one"@.len() != "_hash"@.len());
    lemma_suffix_distinct(l, "_one"@, "_hash"@);
    assert("_one"@.len() != "_copy"@.len());
    lemma_suffix_distinct(l, "_one"@, "_copy"@);
    assert("_one"@.len() != "_c1"@.len());
    lemma_suffix_distinct(l, "_one"@, "_c1"@);
    assert("_one"@.len() != "_ch"@.len());
    lemma_suffix_distinct(l, "_one"@, "_ch"@);
    assert("_one"@.len() != "_done"@.len());
    lemma_suffix_distinct(l, "_one"@, "_done"@);
    assert("_one"@.len() != "_r1"@.len());
    lemma_suffix_distinct(l, "_one"@, "_r1"@);
    assert("_one"@.len() != "_rh"@.len());
    lemma_suffix_distinct(l, "_one"@, "_rh"@);
    assert("_hash"@[1] != "_copy"@[1]);
    lemma_suffix_distinct(l, "_hash"@, "_copy"@);
    assert("_hash"@.len() != "_c1"@.len());
    lemma_suffix_distinct(l, "_hash"@, "_c1"@);
    assert("_hash"@.len() != "_ch"@.len());
    lemma_suffix_distinct(l, "_hash"@, "_ch"@);
    assert("_hash"@[1] != "_done"@[1]);
    lemma_suffix_distinct(l, "_hash"@, "_done"@);
    assert("_hash"@.len() != "_r1"@.len());
    lemma_suffix_distinct(l, "_hash"@, "_r1"@);
    assert("_hash"@.len() != "_rh"@.len());
    lemma_suffix_distinct(l, "_hash"@, "_rh"@);
    assert("_copy"@.len() != "_c1"@.len());
    lemma_suffix_distinct(l, "_copy"@, "_c1"@);
    assert("_copy"@.len() != "_ch"@.len());
    lemma_suffix_distinct(l, "_copy"@, "_ch"@);
    assert("_copy"@[1] != "_done"@[1]);
    lemma_suffix_distinct(l, "_copy"@, "_done"@);
    assert("_copy"@.len() != "_r1"@.len());
    lemma_suffix_distinct(l, "_copy"@, "_r1"@);
    assert("_copy"@.len() != "_rh"@.len());
    lemma_suffix_distinct(l, "_copy"@, "_rh"@);
    assert("_c1"@[2] != "_ch"@[2]);
    lemma_suffix_distinct(l, "_c1"@, "_ch"@);
    assert("_c1"@.len() != "_done"@.len());
    lemma_suffix_distinct(l, "_c1"@, "_done"@);
    assert("_c1"@[1] != "_r1"@[1]);
    lemma_suffix_distinct(l, "_c1"@, "_r1"@);
    assert("_c1"@[1] != "_rh"@[1]);
    lemma_suffix_distinct(l, "_c1"@, "_rh"@);
    assert("_ch"@.len() != "_done"@.len());
    lemma_suffix_distinct(l, "_ch"@, "_done"@);
    assert("_ch"@[1] != "_r1"@[1]);
    lemma_suffix_distinct(l, "_ch"@, "_r1"@);
    assert("_ch"@[1] != "_rh"@[1]);
    lemma_suffix_distinct(l, "_ch"@, "_rh"@);
    assert("_done"@.len() != "_r1"@.len());
    lemma_suffix_distinct(l, "_done"@, "_r1"@);
    assert("_done"@.len() != "_rh"@.len());
    lemma_suffix_distinct(l, "_done"@, "_rh"@);
    assert("_r1"@[2] != "_rh"@[2]);
    lemma_suffix_distinct(l, "_r1"@, "_rh"@);
    lemma_decrement_expands(parts, n, c);
    lemma_decrement_reads(l, parts[1], parts[2], r1, r2);
    lemma_decrement_resolves(l, r1, r2);
}


/// A call `clear a`, where `a` names register `r`, assembled and run from
/// its first instruction, empties register `r` and leaves every other
/// register as it was.
pub proof fn lemma_clear_call_empties(parts: Seq<Seq<char>>, n: nat, c: usize, r: usize, s: MachineState)
    requires
        commands_kept(),
        parts.len() == 2,
        asm_word(parts[1]),
        register_of(parts[1]) == Ok::<usize, Seq<char>>(r),
        s.program == assembled(join(builtin_expansion("clear"@, parts, n, c)->Ok_0.lines, "\n"@))->Ok_0,
        s.pc == 0,
        nonempty_only(s.registers),
        s.step_count + 2 * reg(s.registers, r).len() + 2 <= step_limit(s),
    ensures
        run_spec(s).1 == RunResult::Halted,
        run_spec(s).0.registers == s.registers.remove(r),
{
    lemma_clear_template(parts, n, c, r);
    lemma_clear_empties(s, r);
}

/// A call `move a b`, where `a` and `b` name two different registers `ra` and
/// `rb`, assembled and run from its first instruction, appends the word of
/// `ra` to that of `rb`, empties `ra`, and leaves every other register as it
/// was.
pub proof fn lemma_move_call_appends(
    parts: Seq<Seq<char>>,
    n: nat,
    c: usize,
    ra: usize,
    rb: usize,
    s: MachineState,
)
    requires
        commands_kept(),
        parts.len() == 3,
        asm_word(parts[1]),
        asm_word(parts[2]),
        register_of(parts[1]) == Ok::<usize, Seq<char>>(ra),
        register_of(parts[2]) == Ok::<usize, Seq<char>>(rb),
        ra != rb,
        s.program == assembled(join(builtin_expansion("move"@, parts, n, c)->Ok_0.lines, "\n"@))->Ok_0,
        s.pc == 0,
        nonempty_only(s.registers),
        s.step_count + 4 * reg(s.registers, ra).len() + 2 <= step_limit(s),
    ensures
        run_spec(s).1 == RunResult::Halted,
        run_spec(s).0.registers == crate::machine::store(
            s.registers.remove(ra),
            rb,
            reg(s.registers, rb) + reg(s.registers, ra),
        ),
{
    lemma_move_template(parts, n, c, ra, rb);
    lemma_move_appends(s, ra, rb);
}

/// A call `pop a`, where `a` names register `r`, assembled and run from its
/// first instruction, drops the first symbol of the word of `r` (if it has
/// one), which halves its value, and leaves every other register as it was.
pub proof fn lemma_pop_call_halves(parts: Seq<Seq<char>>, n: nat, c: usize, r: usize, s: MachineState)
    requires
        commands_kept(),
        parts.len() == 2,
        asm_word(parts[1]),
        register_of(parts[1]) == Ok::<usize, Seq<char>>(r),
        s.program == assembled(join(builtin_expansion("pop"@, parts, n, c)->Ok_0.lines, "\n"@))->Ok_0,
        s.pc == 0,
        s.step_count + 2 <= step_limit(s),
    ensures
        run_spec(s).1 == RunResult::Halted,
        run_spec(s).0.registers == (if reg(s.registers, r).len() == 0 {
            s.registers
        } else {
            store(s.registers, r, reg(s.registers, r).drop_first())
        }),
        value(reg(run_spec(s).0.registers, r)) == value(reg(s.registers, r)) / 2,
{
    lemma_pop_template(parts, n, c, r);
    lemma_pop_drops_first(s, r);
}

/// A call `copy a b t`, where `a`, `b` and `t` name three different
/// registers and `t` is empty, assembled and run from its first
/// instruction, appends the word of `a` to that of `b`, keeps `a`, leaves
/// `t` empty, and leaves every other register as it was.
pub proof fn lemma_copy_call_appends(
    parts: Seq<Seq<char>>,
    n: nat,
    c: usize,
    a: usize,
    b: usize,
    t: usize,
    s: MachineState,
)
    requires
        commands_kept(),
        parts.len() == 4,
        asm_word(parts[1]),
        asm_word(parts[2]),
        asm_word(parts[3]),
        register_of(parts[1]) == Ok::<usize, Seq<char>>(a),
        register_of(parts[2]) == Ok::<usize, Seq<char>>(b),
        register_of(parts[3]) == Ok::<usize, Seq<char>>(t),
        a != b && a != t && b != t,
        s.program == assembled(join(builtin_expansion("copy"@, parts, n, c)->Ok_0.lines, "\n"@))->Ok_0,
        s.pc == 0,
        nonempty_only(s.registers),
        reg(s.registers, t).len() == 0,
        s.step_count + 9 * reg(s.registers, a).len() + 4 <= step_limit(s),
    ensures
        run_spec(s).1 == RunResult::Halted,
        run_spec(s).0.registers == store(s.registers, b, reg(s.registers, b) + reg(s.registers, a)),
{
    lemma_copy_template(parts, n, c, a, b, t);
    lemma_copy_appends(s, a, b, t);
}

/// A call `shift_left r t`, where `r` and `t` name two different registers
/// and `t` is empty, assembled and run from its first instruction, puts a
/// `#` before the word of `r`, which doubles its value, leaves `t` empty,
/// and leaves every other register as it was.
pub proof fn lemma_shift_left_call_doubles(
    parts: Seq<Seq<char>>,
    n: nat,
    c: usize,
    r: usize,
    t: usize,
    s: MachineState,
)
    requires
        commands_kept(),
        parts.len() == 3,
        asm_word(parts[1]),
        asm_word(parts[2]),
        register_of(parts[1]) == Ok::<usize, Seq<char>>(r),
        register_of(parts[2]) == Ok::<usize, Seq<char>>(t),
        r != t,
        s.program == assembled(join(builtin_expansion("shift_left"@, parts, n, c)->Ok_0.lines, "\n"@))->Ok_0,
        s.pc == 0,
        nonempty_only(s.registers),
        reg(s.registers, t).len() == 0,
        s.step_count + 8 * reg(s.registers, r).len() + 5 <= step_limit(s),
    ensures
        run_spec(s).1 == RunResult::Halted,
        run_spec(s).0.registers == s.registers.insert(r, seq![Symbol::Hash] + reg(s.registers, r)),
        value(reg(run_spec(s).0.registers, r)) == 2 * value(reg(s.registers, r)),
{
    lemma_shift_left_template(parts, n, c, r, t);
    lemma_shift_left_prepends(s, r, t);
}

/// A call `increment r t`, where `r` and `t` name two different registers
/// and `t` is empty, assembled and run from its first instruction, adds one
/// to the value of `r`, leaves `t` empty, and leaves every other register as
/// it was.
pub proof fn lemma_increment_call_adds_one(
    parts: Seq<Seq<char>>,
    n: nat,
    c: usize,
    r: usize,
    t: usize,
    s: MachineState,
)
    requires
        commands_kept(),
        parts.len() == 3,
        asm_word(parts[1]),
        asm_word(parts[2]),
        register_of(parts[1]) == Ok::<usize, Seq<char>>(r),
        register_of(parts[2]) == Ok::<usize, Seq<char>>(t),
        r != t,
        s.program == assembled(join(builtin_expansion("increment"@, parts, n, c)->Ok_0.lines, "\n"@))->Ok_0,
        s.pc == 0,
        nonempty_only(s.registers),
        reg(s.registers, t).len() == 0,
        s.step_count + increment_steps(reg(s.registers, r)) <= step_limit(s),
    ensures
        run_spec(s).1 == RunResult::Halted,
        run_spec(s).0.registers == s.registers.insert(r, incremented(reg(s.registers, r))),
        value(reg(run_spec(s).0.registers, r)) == value(reg(s.registers, r)) + 1,
{
    lemma_increment_template(parts, n, c, r, t);
    lemma_increment_adds_one(s, r, t);
}

/// A call `decrement r t`, where `r` and `t` name two different registers,
/// `t` is empty and `r` holds a positive value, assembled and run from its
/// first instruction, takes one from the value of `r`, leaves `t` empty, and
/// leaves every other register as it was.
pub proof fn lemma_decrement_call_subtracts_one(
    parts: Seq<Seq<char>>,
    n: nat,
    c: usize,
    r: usize,
    t: usize,
    s: MachineState,
)
    requires
        commands_kept(),
        parts.len() == 3,
        asm_word(parts[1]),
        asm_word(parts[2]),
        register_of(parts[1]) == Ok::<usize, Seq<char>>(r),
        register_of(parts[2]) == Ok::<usize, Seq<char>>(t),
        r != t,
        s.program == assembled(join(builtin_expansion("decrement"@, parts, n, c)->Ok_0.lines, "\n"@))->Ok_0,
        s.pc == 0,
        nonempty_only(s.registers),
        reg(s.registers, t).len() == 0,
        value(reg(s.registers, r)) > 0,
        s.step_count + decrement_steps(reg(s.registers, r)) <= step_limit(s),
    ensures
        run_spec(s).1 == RunResult::Halted,
        run_spec(s).0.registers == store(s.registers, r, decremented(reg(s.registers, r))),
        value(reg(run_spec(s).0.registers, r)) + 1 == value(reg(s.registers, r)),
{
    lemma_decrement_template(parts, n, c, r, t);
    lemma_decrement_subtracts_one(s, r, t);
}

/// A template line with two placeholders becomes the line with both
/// replaced.
proof fn lemma_inst_two(
    p: Seq<char>,
    k1: char,
    m: Seq<char>,
    k2: char,
    args: Seq<Seq<char>>,
    label: Seq<char>,
)
    requires
        forall|j: int| 0 <= j < p.len() ==> #[trigger] p[j] != '{',
        forall|j: int| 0 <= j < m.len() ==> #[trigger] m[j] != '{',
        placeholder(k1, args, label) is Some,
        placeholder(k2, args, label) is Some,
    ensures
        instantiate(p + seq!['{', k1, '}'] + m + seq!['{', k2, '}'], args, label) == p
            + placeholder(k1, args, label)->0 + m + placeholder(k2, args, label)->0,
{
    let h1 = seq!['{', k1, '}'];
    let h2 = seq!['{', k2, '}'];
    let e = Seq::<char>::empty();
    let rest = h1 + m + h2;
    assert(p + h1 + m + h2 =~= p + rest);
    lemma_inst_plain(p, rest, args, label);
    assert(rest[0] == '{' && rest[1] == k1 && rest[2] == '}');
    assert(rest.skip(3) =~= m + h2 + e);
    lemma_inst_line(m, k2, e, args, label);
    assert(m + placeholder(k2, args, label)->0 + e =~= m + placeholder(k2, args, label)->0);
    assert(instantiate(rest, args, label) == placeholder(k1, args, label)->0 + instantiate(
        rest.skip(3),
        args,
        label,
    ));
    assert(p + (placeholder(k1, args, label)->0 + (m + placeholder(k2, args, label)->0)) =~= p
        + placeholder(k1, args, label)->0 + m + placeholder(k2, args, label)->0);
}

/// A call `swap a b t` becomes the three calls `move a t`, `move b a` and
/// `move t b`, in this order; it uses up no label number.
pub proof fn lemma_swap_expands(parts: Seq<Seq<char>>, n: nat, c: usize)
    requires
        parts.len() == 4,
    ensures
        builtin_expansion("swap"@, parts, n, c) == Ok::<Expansion, Seq<char>>(
            Expansion {
                lines: seq![
                    "    move "@ + parts[1] + " "@ + parts[3],
                    "    move "@ + parts[2] + " "@ + parts[1],
                    "    move "@ + parts[3] + " "@ + parts[2],
                ],
                changed: true,
                counter: c,
            },
        ),
{
    reveal_strlit("clear");
    reveal_strlit("move");
    reveal_strlit("copy");
    reveal_strlit("pop");
    reveal_strlit("swap");
    let tl = seq!["    move {1} {3}"@, "    move {2} {1}"@, "    move {3} {2}"@];
    reveal_strlit("    move {1} {3}\n    move {2} {1}\n    move {3} {2}");
    reveal_strlit("    move {1} {3}");
    reveal_strlit("    move {2} {1}");
    reveal_strlit("    move {3} {2}");
    reveal_strlit("\n");
    assert(join(tl, "\n"@) =~= SWAP_BODY@) by {
        reveal_with_fuel(join, 4);
        assert(tl.drop_last().drop_last() =~= seq!["    move {1} {3}"@]);
    }
    lemma_plain_lines(tl);
    lemma_lines_join(tl);
    reveal_strlit("    move ");
    reveal_strlit(" ");
    let label = Seq::<char>::empty();
    assert('1' as u32 == 49 && '2' as u32 == 50 && '3' as u32 == 51 && '0' as u32 == 48);
    assert(placeholder('1', parts, label) == Some(parts[1]));
    assert(placeholder('2', parts, label) == Some(parts[2]));
    assert(placeholder('3', parts, label) == Some(parts[3]));
    let mv = "    move "@;
    let sp = " "@;
    assert(tl[0] =~= mv + seq!['{', '1', '}'] + sp + seq!['{', '3', '}']);
    lemma_inst_two(mv, '1', sp, '3', parts, label);
    assert(tl[1] =~= mv + seq!['{', '2', '}'] + sp + seq!['{', '1', '}']);
    lemma_inst_two(mv, '2', sp, '1', parts, label);
    assert(tl[2] =~= mv + seq!['{', '3', '}'] + sp + seq!['{', '2', '}']);
    lemma_inst_two(mv, '3', sp, '2', parts, label);
    assert("swap"@.len() != "clear"@.len());
    assert("swap"@ != "clear"@);
    assert("swap"@[0] != "move"@[0]);
    assert("swap"@ != "move"@);
    assert("swap"@[0] != "copy"@[0]);
    assert("swap"@ != "copy"@);
    assert("swap"@.len() != "pop"@.len());
    assert("swap"@ != "pop"@);
    assert(builtin("swap"@) == Some(
        super::templates::Builtin { arity: 3, label_prefix: None, usage: super::templates::SWAP_USAGE@, body: SWAP_BODY@ },
    ));
    let x = builtin_expansion("swap"@, parts, n, c)->Ok_0.lines;
    assert(x.len() == 3);
    assert(x =~= seq![
        "    move "@ + parts[1] + " "@ + parts[3],
        "    move "@ + parts[2] + " "@ + parts[1],
        "    move "@ + parts[3] + " "@ + parts[2],
    ]);
}

/// A call `shift_right a` becomes the call `pop a`; it uses up no label
/// number.
pub proof fn lemma_shift_right_expands(parts: Seq<Seq<char>>, n: nat, c: usize)
    requires
        parts.len() == 2,
    ensures
        builtin_expansion("shift_right"@, parts, n, c) == Ok::<Expansion, Seq<char>>(
            Expansion { lines: seq!["    pop "@ + parts[1]], changed: true, counter: c },
        ),
{
    reveal_strlit("clear");
    reveal_strlit("move");
    reveal_strlit("copy");
    reveal_strlit("pop");
    reveal_strlit("swap");
    reveal_strlit("shift_left");
    reveal_strlit("shift_right");
    let tl = seq!["    pop {1}"@];
    reveal_strlit("    pop {1}");
    reveal_strlit("\n");
    assert(join(tl, "\n"@) =~= SHIFT_RIGHT_BODY@) by {
        reveal_with_fuel(join, 2);
    }
    lemma_plain_lines(tl);
    lemma_lines_join(tl);
    reveal_strlit("    pop ");
    let label = Seq::<char>::empty();
    let e = Seq::<char>::empty();
    assert('1' as u32 == 49 && '0' as u32 == 48);
    assert(placeholder('1', parts, label) == Some(parts[1]));
    assert(tl[0] =~= "    pop "@ + seq!['{', '1', '}'] + e);
    lemma_inst_line("    pop "@, '1', e, parts, label);
    assert("shift_right"@.len() != "clear"@.len());
    assert("shift_right"@ != "clear"@);
    assert("shift_right"@.len() != "move"@.len());
    assert("shift_right"@ != "move"@);
    assert("shift_right"@.len() != "copy"@.len());
    assert("shift_right"@ != "copy"@);
    assert("shift_right"@.len() != "pop"@.len());
    assert("shift_right"@ != "pop"@);
    assert("shift_right"@.len() != "swap"@.len());
    assert("shift_right"@ != "swap"@);
    assert("shift_right"@[6] != "shift_left"@[6]);
    assert("shift_right"@ != "shift_left"@);
    assert(builtin("shift_right"@) == Some(
        super::templates::Builtin { arity: 1, label_prefix: None, usage: super::templates::SHIFT_RIGHT_USAGE@, body: SHIFT_RIGHT_BODY@ },
    ));
    let x = builtin_expansion("shift_right"@, parts, n, c)->Ok_0.lines;
    assert(x.len() == 1);
    assert(x[0] =~= "    pop "@ + parts[1]);
    assert(x =~= seq!["    pop "@ + parts[1]]);
}

} // verus!
