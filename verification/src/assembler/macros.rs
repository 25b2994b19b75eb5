//! Macro expansion for the 1# assembler.
//!
//! Handles both user-defined macros and built-in macros.
use vstd::prelude::*;

use super::templates::{builtin, builtin_lookup};
use super::{line_err, line_error, push_line_prefix};
use crate::text::{
    alphanumeric, append_chars, chars_of, clone_chars, cut_at, cut_chars, decimal, digit_value,
    eq_chars, eq_str, is_alphanumeric, join, join_chars, lemma_decimal_value, lines, lowercase,
    lowercase_chars, push_str, push_usize, split_lines, split_words, starts_with, starts_with_str,
    string_of, sub_chars, texts, trim, trim_chars, words,
};

verus! {

// ---------------------------------------------------------------------------
// Unique labels
// ---------------------------------------------------------------------------

/// The counter that numbers the labels made during macro expansion, so that
/// each macro call gets labels of its own.
pub struct LabelCounter {
    pub next: usize,
}

impl LabelCounter {
    /// A counter that starts at zero.
    pub fn new() -> (c: Self)
        ensures
            c.next == 0,
    {
        LabelCounter { next: 0 }
    }
}

/// Resets the label counter (useful for testing).
pub fn reset_label_counter(counter: &mut LabelCounter)
    ensures
        final(counter).next == 0,
{
    counter.next = 0;
}

/// The label made from `prefix` with counter value `n`.
pub open spec fn label_text(prefix: Seq<char>, n: usize) -> Seq<char> {
    "__"@ + prefix + "_"@ + decimal(n as nat) + "__"@
}

/// The counter value after `n`; it wraps around at `usize::MAX`.
pub open spec fn next_label(n: usize) -> usize {
    if n == usize::MAX {
        0
    } else {
        (n + 1) as usize
    }
}

/// Labels made with one prefix and two different counter values differ.
pub proof fn lemma_labels_distinct(prefix: Seq<char>, n: usize, m: usize)
    requires
        n != m,
    ensures
        label_text(prefix, n) != label_text(prefix, m),
{
    let head = "__"@ + prefix + "_"@;
    let dn = decimal(n as nat);
    let dm = decimal(m as nat);
    lemma_decimal_value(n as nat);
    lemma_decimal_value(m as nat);
    reveal_strlit("__");
    reveal_strlit("_");
    assert(label_text(prefix, n) =~= head + dn + "__"@);
    assert(label_text(prefix, m) =~= head + dm + "__"@);
    if label_text(prefix, n) == label_text(prefix, m) {
        assert(dn.len() == dm.len());
        assert(dn =~= label_text(prefix, n).subrange(head.len() as int, (head.len() + dn.len()) as int));
        assert(dm =~= label_text(prefix, m).subrange(head.len() as int, (head.len() + dm.len()) as int));
    }
}

/// Generates a unique label with the given prefix.
fn unique_label(prefix: &Vec<char>, counter: &mut usize) -> (l: Vec<char>)
    ensures
        l@ == label_text(prefix@, *old(counter)),
        *final(counter) == next_label(*old(counter)),
{
    let n = *counter;
    *counter = if n == usize::MAX {
        0
    } else {
        n + 1
    };
    let mut l: Vec<char> = Vec::new();
    push_str(&mut l, "__");
    append_chars(&mut l, prefix);
    push_str(&mut l, "_");
    push_usize(&mut l, n);
    push_str(&mut l, "__");
    assert(l@ =~= label_text(prefix@, n));
    l
}

// ---------------------------------------------------------------------------
// Built-in macros
// ---------------------------------------------------------------------------

/// What a placeholder of a template stands for: `{L}` for the label, `{k}`
/// for the `k`-th word of the call (the macro's name being the 0-th).
pub open spec fn placeholder(k: char, args: Seq<Seq<char>>, label: Seq<char>) -> Option<
    Seq<char>,
> {
    if k == 'L' {
        Some(label)
    } else if '1' <= k <= '9' && digit_value(k) < args.len() {
        Some(args[digit_value(k) as int])
    } else {
        None
    }
}

/// A template line with its placeholders replaced.
pub open spec fn instantiate(t: Seq<char>, args: Seq<Seq<char>>, label: Seq<char>) -> Seq<char>
    decreases t.len(),
{
    if t.len() == 0 {
        t
    } else if t.len() >= 3 && t[0] == '{' && t[2] == '}' && placeholder(t[1], args, label) is Some {
        placeholder(t[1], args, label).unwrap() + instantiate(t.skip(3), args, label)
    } else {
        seq![t[0]] + instantiate(t.skip(1), args, label)
    }
}

/// The result of expanding a line: the lines it became, whether it was a
/// macro call, and the label counter afterwards.
pub struct Expansion {
    pub lines: Seq<Seq<char>>,
    pub changed: bool,
    pub counter: usize,
}

/// Expanding the words `parts` of a line as a built-in macro call, with the
/// label counter at `c`: nothing when `parts[0]` (lowercased as `cmd`) names
/// no built-in macro, an arity error, or the macro's template instantiated
/// line by line.
pub open spec fn builtin_expansion(cmd: Seq<char>, parts: Seq<Seq<char>>, n: nat, c: usize) -> Result<
    Expansion,
    Seq<char>,
> {
    match builtin(cmd) {
        None => Ok(Expansion { lines: Seq::empty(), changed: false, counter: c }),
        Some(b) => if parts.len() != b.arity + 1 {
            Err(line_error(n, b.usage))
        } else {
            let label = match b.label_prefix {
                Some(p) => label_text(p, c),
                None => Seq::empty(),
            };
            let c2 = match b.label_prefix {
                Some(_) => next_label(c),
                None => c,
            };
            let ts = lines(b.body);
            Ok(
                Expansion {
                    lines: Seq::new(ts.len(), |i: int| instantiate(ts[i], parts, label)),
                    changed: true,
                    counter: c2,
                },
            )
        },
    }
}

/// The value of a placeholder key.
fn placeholder_of(k: char, args: &Vec<Vec<char>>, label: &Vec<char>) -> (r: Option<Vec<char>>)
    ensures
        match r {
            Some(v) => placeholder(k, texts(args@), label@) == Some(v@),
            None => placeholder(k, texts(args@), label@) is None,
        },
{
    if k == 'L' {
        Some(clone_chars(label))
    } else if '1' <= k && k <= '9' {
        let d = (k as u32 - '0' as u32) as usize;
        if d < args.len() {
            Some(clone_chars(&args[d]))
        } else {
            None
        }
    } else {
        None
    }
}

/// Replaces the placeholders of a template line.
fn instantiate_chars(t: &Vec<char>, args: &Vec<Vec<char>>, label: &Vec<char>) -> (r: Vec<char>)
    ensures
        r@ == instantiate(t@, texts(args@), label@),
{
    let ghost a = texts(args@);
    let mut out: Vec<char> = Vec::new();
    let mut i: usize = 0;
    assert(t@.skip(0) =~= t@);
    while i < t.len()
        invariant
            i <= t@.len(),
            a == texts(args@),
            out@ + instantiate(t@.skip(i as int), a, label@) == instantiate(t@, a, label@),
        decreases t@.len() - i,
    {
        let ghost rest = t@.skip(i as int);
        if t.len() - i > 2 && t[i] == '{' && t[i + 2] == '}' {
            match placeholder_of(t[i + 1], args, label) {
                Some(v) => {
                    assert(rest.skip(3) =~= t@.skip(i + 3));
                    append_chars(&mut out, &v);
                    i = i + 3;
                    assert(out@ + instantiate(t@.skip(i as int), a, label@) =~= instantiate(
                        t@,
                        a,
                        label@,
                    ));
                    continue ;
                },
                None => {},
            }
        }
        assert(rest.skip(1) =~= t@.skip(i + 1));
        out.push(t[i]);
        i = i + 1;
        assert(out@ + instantiate(t@.skip(i as int), a, label@) =~= instantiate(t@, a, label@));
    }
    assert(t@.skip(i as int) =~= Seq::<char>::empty());
    assert(out@ + Seq::<char>::empty() =~= out@);
    out
}

/// Expands a built-in macro if recognized.
fn expand_builtin_macro(cmd: &Vec<char>, parts: &Vec<Vec<char>>, line_num: usize, counter: &mut usize) -> (r: Result<
    (Vec<Vec<char>>, bool),
    Vec<char>,
>)
    ensures
        match r {
            Ok((ls, ch)) => builtin_expansion(cmd@, texts(parts@), line_num as nat, *old(counter))
                == Ok::<Expansion, Seq<char>>(
                Expansion { lines: texts(ls@), changed: ch, counter: *final(counter) },
            ),
            Err(e) => builtin_expansion(cmd@, texts(parts@), line_num as nat, *old(counter))
                == Err::<Expansion, Seq<char>>(e@) && *final(counter) == *old(counter),
        },
{
    let b = match builtin_lookup(cmd) {
        None => {
            let out: Vec<Vec<char>> = Vec::new();
            assert(texts(out@) =~= Seq::<Seq<char>>::empty());
            return Ok((out, false));
        },
        Some(b) => b,
    };
    if parts.len() != b.arity + 1 {
        let mut e: Vec<char> = Vec::new();
        push_str(&mut e, "Line ");
        push_usize(&mut e, line_num);
        push_str(&mut e, ": ");
        push_str(&mut e, b.usage);
        assert(e@ =~= line_error(line_num as nat, b@.usage));
        return Err(e);
    }
    let label = match b.label_prefix {
        Some(p) => {
            let pv = chars_of(p);
            unique_label(&pv, counter)
        },
        None => Vec::new(),
    };
    let body = chars_of(b.body);
    let ts = split_lines(&body);
    let ghost tv = texts(ts@);
    let mut out: Vec<Vec<char>> = Vec::new();
    let mut i: usize = 0;
    while i < ts.len()
        invariant
            i <= ts@.len(),
            tv == texts(ts@),
            texts(out@) =~= Seq::new(
                i as nat,
                |j: int| instantiate(tv[j], texts(parts@), label@),
            ),
        decreases ts@.len() - i,
    {
        let l = instantiate_chars(&ts[i], parts, &label);
        assert(tv[i as int] == ts@[i as int]@);
        let ghost before = texts(out@);
        let ghost lv = l@;
        out.push(l);
        assert(texts(out@) =~= before.push(lv));
        i = i + 1;
    }
    assert(texts(out@) =~= Seq::new(
        tv.len(),
        |j: int| instantiate(tv[j], texts(parts@), label@),
    ));
    Ok((out, true))
}

// ---------------------------------------------------------------------------
// User-defined macros
// ---------------------------------------------------------------------------

/// A user-defined macro with parameters and body.
#[derive(Debug, Clone)]
pub struct UserMacro {
    pub name: String,
    pub params: Vec<String>,
    pub body: Vec<String>,
}

/// A macro definition as a value.
pub struct MacroDef {
    pub name: Seq<char>,
    pub params: Seq<Seq<char>>,
    pub body: Seq<Seq<char>>,
}

/// The texts held by a sequence of strings.
pub open spec fn strings(v: Seq<String>) -> Seq<Seq<char>> {
    v.map_values(|s: String| s@)
}

impl View for UserMacro {
    type V = MacroDef;

    open spec fn view(&self) -> MacroDef {
        MacroDef { name: self.name@, params: strings(self.params@), body: strings(self.body@) }
    }
}

/// A macro definition held as characters.
struct MacroChars {
    name: Vec<char>,
    params: Vec<Vec<char>>,
    body: Vec<Vec<char>>,
}

impl View for MacroChars {
    type V = MacroDef;

    closed spec fn view(&self) -> MacroDef {
        MacroDef { name: self.name@, params: texts(self.params@), body: texts(self.body@) }
    }
}

/// Whether `c` can be part of a word: alphanumeric or `_`.
pub open spec fn is_word_char(c: char) -> bool {
    alphanumeric(c) || c == '_'
}

fn word_char(c: char) -> (b: bool)
    ensures
        b == is_word_char(c),
{
    is_alphanumeric(c) || c == '_'
}

/// State of a left-to-right scan: the output so far, whether a name is being
/// read, and the name read so far.
pub struct ScanState {
    pub out: Seq<char>,
    pub active: bool,
    pub name: Seq<char>,
}

/// A finished word: `a` when it is the parameter `p`, else itself.
pub open spec fn flush_word(w: Seq<char>, p: Seq<char>, a: Seq<char>) -> Seq<char> {
    if w.len() > 0 && w == p {
        a
    } else {
        w
    }
}

/// The scan that replaces the word `p` by `a`, after `k` characters of `s`.
pub open spec fn substitute_state(s: Seq<char>, p: Seq<char>, a: Seq<char>, k: nat) -> ScanState
    decreases k,
{
    if k == 0 {
        ScanState { out: Seq::empty(), active: false, name: Seq::empty() }
    } else {
        let st = substitute_state(s, p, a, (k - 1) as nat);
        let c = s[k - 1];
        if is_word_char(c) {
            ScanState { name: st.name.push(c), ..st }
        } else {
            ScanState { out: st.out + flush_word(st.name, p, a) + seq![c], active: false, name: Seq::empty() }
        }
    }
}

/// `s` with every whole word equal to `p` replaced by `a`. Words are maximal
/// runs of alphanumeric characters and `_`.
pub open spec fn substitute(s: Seq<char>, p: Seq<char>, a: Seq<char>) -> Seq<char> {
    let st = substitute_state(s, p, a, s.len());
    st.out + flush_word(st.name, p, a)
}

/// Whether parameter `k` is the last one with its name: an argument given
/// for a repeated parameter name replaces the ones given before it.
pub open spec fn last_of_name(params: Seq<Seq<char>>, k: int) -> bool {
    forall|j: int| k < j < params.len() ==> params[j] != params[k]
}

/// `line` with the first `k` parameters replaced by their arguments, one
/// after another.
pub open spec fn substitute_upto(line: Seq<char>, params: Seq<Seq<char>>, args: Seq<Seq<char>>, k: nat) -> Seq<char>
    decreases k,
{
    if k == 0 {
        line
    } else {
        let l = substitute_upto(line, params, args, (k - 1) as nat);
        if last_of_name(params, k - 1) {
            substitute(l, params[k - 1], args[k - 1])
        } else {
            l
        }
    }
}

/// `line` with its parameters replaced by their arguments.
pub open spec fn substitute_params(line: Seq<char>, params: Seq<Seq<char>>, args: Seq<Seq<char>>) -> Seq<char> {
    substitute_upto(line, params, args, params.len())
}

/// The scan of a line that begins with `@`, after `k` characters: each `@`
/// starts a local label name, which ends at the first character that is not
/// a word character and is written as `prefix` followed by the name.
pub open spec fn local_state_at(s: Seq<char>, prefix: Seq<char>, k: nat) -> ScanState
    decreases k,
{
    if k == 0 {
        ScanState { out: Seq::empty(), active: false, name: Seq::empty() }
    } else {
        let st = local_state_at(s, prefix, (k - 1) as nat);
        let c = s[k - 1];
        if c == '@' {
            ScanState { out: st.out, active: true, name: Seq::empty() }
        } else if st.active {
            if is_word_char(c) {
                ScanState { name: st.name.push(c), ..st }
            } else {
                ScanState { out: st.out + prefix + st.name + seq![c], active: false, name: Seq::empty() }
            }
        } else {
            ScanState { out: st.out.push(c), ..st }
        }
    }
}

/// The scan of any other line, after `k` characters: each `@` and the word
/// characters after it are written as `prefix` followed by those characters.
pub open spec fn local_state(s: Seq<char>, prefix: Seq<char>, k: nat) -> ScanState
    decreases k,
{
    if k == 0 {
        ScanState { out: Seq::empty(), active: false, name: Seq::empty() }
    } else {
        let st = local_state(s, prefix, (k - 1) as nat);
        let c = s[k - 1];
        if st.active && is_word_char(c) {
            ScanState { name: st.name.push(c), ..st }
        } else {
            let out = if st.active {
                st.out + prefix + st.name
            } else {
                st.out
            };
            if c == '@' {
                ScanState { out, active: true, name: Seq::empty() }
            } else {
                ScanState { out: out.push(c), active: false, name: Seq::empty() }
            }
        }
    }
}

/// `line` with its local labels (`@name`) made unique by `prefix`.
pub open spec fn localize(line: Seq<char>, prefix: Seq<char>) -> Seq<char> {
    let t = trim(line);
    if t.len() > 0 && t[0] == '@' {
        let st = local_state_at(line, prefix, line.len());
        if st.active && st.name.len() > 0 {
            st.out + prefix + st.name
        } else {
            st.out
        }
    } else {
        let st = local_state(line, prefix, line.len());
        if st.active {
            st.out + prefix + st.name
        } else {
            st.out
        }
    }
}

/// Expanding a call of the user macro `m` with arguments `args` on line `n`,
/// with the label counter at `c`: the macro's body with its parameters
/// replaced and its local labels made unique, and the counter afterwards; or
/// the error for a wrong number of arguments.
pub open spec fn user_expansion(m: MacroDef, args: Seq<Seq<char>>, n: nat, c: usize) -> Result<
    (Seq<Seq<char>>, usize),
    Seq<char>,
> {
    if args.len() != m.params.len() {
        Err(
            line_error(
                n,
                "Macro '"@ + m.name + "' expects "@ + decimal(m.params.len()) + " arguments, got "@
                    + decimal(args.len()),
            ),
        )
    } else {
        let prefix = label_text(m.name, c);
        Ok(
            (
                Seq::new(
                    m.body.len(),
                    |i: int| localize(substitute_params(m.body[i], m.params, args), prefix),
                ),
                next_label(c),
            ),
        )
    }
}

/// Two successive calls of a user macro give its local labels different
/// names: the first call writes `@x` as `label_text(name, c) + x`, and the
/// second, which starts from the counter the first one left, as
/// `label_text(name, c2) + x`, a different text.
pub proof fn lemma_successive_calls_distinct_labels(
    m: MacroDef,
    args: Seq<Seq<char>>,
    n: nat,
    c: usize,
    x: Seq<char>,
)
    requires
        user_expansion(m, args, n, c) is Ok,
    ensures
        ({
            let c2 = user_expansion(m, args, n, c)->Ok_0.1;
            &&& c2 == next_label(c)
            &&& label_text(m.name, c) + x != label_text(m.name, c2) + x
        }),
{
    let c2 = next_label(c);
    let p1 = label_text(m.name, c);
    let p2 = label_text(m.name, c2);
    lemma_labels_distinct(m.name, c, c2);
    if p1 + x == p2 + x {
        assert((p1 + x).len() == (p2 + x).len());
        assert(p1.len() == p2.len());
        assert(p1 =~= (p1 + x).subrange(0, p1.len() as int));
        assert(p2 =~= (p2 + x).subrange(0, p2.len() as int));
    }
}

/// Whether `s` holds no `@`.
pub open spec fn no_at(s: Seq<char>) -> bool {
    forall|j: int| 0 <= j < s.len() ==> #[trigger] s[j] != '@'
}

proof fn lemma_no_at_concat(a: Seq<char>, b: Seq<char>)
    requires
        no_at(a),
        no_at(b),
    ensures
        no_at(a + b),
{
    assert forall|j: int| 0 <= j < (a + b).len() implies #[trigger] (a + b)[j] != '@' by {
        if j < a.len() {
            assert((a + b)[j] == a[j]);
        } else {
            assert((a + b)[j] == b[j - a.len()]);
        }
    }
}

proof fn lemma_local_state_at_no_at(s: Seq<char>, prefix: Seq<char>, k: nat)
    requires
        no_at(prefix),
        k <= s.len(),
    ensures
        no_at(local_state_at(s, prefix, k).out),
        no_at(local_state_at(s, prefix, k).name),
    decreases k,
{
    if k > 0 {
        lemma_local_state_at_no_at(s, prefix, (k - 1) as nat);
        let st = local_state_at(s, prefix, (k - 1) as nat);
        let c = s[k - 1];
        if c != '@' {
            lemma_no_at_concat(st.name, seq![c]);
            assert(st.name.push(c) =~= st.name + seq![c]);
            lemma_no_at_concat(st.out, seq![c]);
            assert(st.out.push(c) =~= st.out + seq![c]);
            lemma_no_at_concat(st.out, prefix);
            lemma_no_at_concat(st.out + prefix, st.name);
            lemma_no_at_concat(st.out + prefix + st.name, seq![c]);
        }
    }
}

proof fn lemma_local_state_no_at(s: Seq<char>, prefix: Seq<char>, k: nat)
    requires
        no_at(prefix),
        !alphanumeric('@'),
        k <= s.len(),
    ensures
        no_at(local_state(s, prefix, k).out),
        no_at(local_state(s, prefix, k).name),
    decreases k,
{
    if k > 0 {
        lemma_local_state_no_at(s, prefix, (k - 1) as nat);
        let st = local_state(s, prefix, (k - 1) as nat);
        let c = s[k - 1];
        lemma_no_at_concat(st.out, prefix);
        lemma_no_at_concat(st.out + prefix, st.name);
        let out = if st.active {
            st.out + prefix + st.name
        } else {
            st.out
        };
        if c != '@' {
            lemma_no_at_concat(st.name, seq![c]);
            assert(st.name.push(c) =~= st.name + seq![c]);
            lemma_no_at_concat(out, seq![c]);
            assert(out.push(c) =~= out + seq![c]);
        }
    }
}

/// Whether `@` is not a word character; by what std documents for ASCII
/// characters it never is, so the laws below that take `!alphanumeric('@')`
/// as a premise hold once this has run.
pub fn at_is_not_word_char() -> (b: bool)
    ensures
        b == !alphanumeric('@'),
        b,
{
    !is_alphanumeric('@')
}

/// A line made local with a prefix that holds no `@` holds no `@`: every
/// `@` of the line starts a local label and is written as the prefix. (The
/// premise on `alphanumeric` says that `@` is not a word character, as std
/// documents for `char::is_alphanumeric`.)
pub proof fn lemma_localize_no_at(line: Seq<char>, prefix: Seq<char>)
    requires
        no_at(prefix),
        !alphanumeric('@'),
    ensures
        no_at(localize(line, prefix)),
{
    lemma_local_state_at_no_at(line, prefix, line.len());
    lemma_local_state_no_at(line, prefix, line.len());
    let sa = local_state_at(line, prefix, line.len());
    let sb = local_state(line, prefix, line.len());
    lemma_no_at_concat(sa.out, prefix);
    lemma_no_at_concat(sa.out + prefix, sa.name);
    lemma_no_at_concat(sb.out, prefix);
    lemma_no_at_concat(sb.out + prefix, sb.name);
}

/// No `@` is left in the lines a user macro call expands to, when the
/// macro's name holds none: each local label `@x` is written with the call's
/// made prefix. (As above, `@` is taken not to be a word character.)
pub proof fn lemma_user_expansion_no_at(m: MacroDef, args: Seq<Seq<char>>, n: nat, c: usize)
    requires
        no_at(m.name),
        !alphanumeric('@'),
        user_expansion(m, args, n, c) is Ok,
    ensures
        forall|i: int|
            0 <= i < user_expansion(m, args, n, c)->Ok_0.0.len() ==> no_at(
                #[trigger] user_expansion(m, args, n, c)->Ok_0.0[i],
            ),
{
    let prefix = label_text(m.name, c);
    let d = decimal(c as nat);
    lemma_decimal_value(c as nat);
    reveal_strlit("__");
    reveal_strlit("_");
    assert(no_at(d)) by {
        assert forall|j: int| 0 <= j < d.len() implies #[trigger] d[j] != '@' by {
            assert(crate::text::is_digit(d[j]));
        }
    }
    assert(no_at("__"@));
    assert(no_at("_"@));
    lemma_no_at_concat("__"@, m.name);
    lemma_no_at_concat("__"@ + m.name, "_"@);
    lemma_no_at_concat("__"@ + m.name + "_"@, d);
    lemma_no_at_concat("__"@ + m.name + "_"@ + d, "__"@);
    let ls = user_expansion(m, args, n, c)->Ok_0.0;
    assert forall|i: int| 0 <= i < ls.len() implies no_at(#[trigger] ls[i]) by {
        lemma_localize_no_at(substitute_params(m.body[i], m.params, args), prefix);
    }
}

/// Replaces the whole words `p` of `s` by `a`.
fn substitute_chars(s: &Vec<char>, p: &Vec<char>, a: &Vec<char>) -> (r: Vec<char>)
    ensures
        r@ == substitute(s@, p@, a@),
{
    let mut out: Vec<char> = Vec::new();
    let mut word: Vec<char> = Vec::new();
    let mut i: usize = 0;
    while i < s.len()
        invariant
            i <= s@.len(),
            out@ == substitute_state(s@, p@, a@, i as nat).out,
            word@ == substitute_state(s@, p@, a@, i as nat).name,
        decreases s@.len() - i,
    {
        let c = s[i];
        if word_char(c) {
            word.push(c);
        } else {
            if word.len() > 0 && eq_chars(&word, p) {
                append_chars(&mut out, a);
            } else {
                append_chars(&mut out, &word);
            }
            out.push(c);
            word = Vec::new();
        }
        i = i + 1;
        assert(out@ =~= substitute_state(s@, p@, a@, i as nat).out);
        assert(word@ =~= substitute_state(s@, p@, a@, i as nat).name);
    }
    if word.len() > 0 && eq_chars(&word, p) {
        append_chars(&mut out, a);
    } else {
        append_chars(&mut out, &word);
    }
    out
}

/// Whether no later parameter has the name of parameter `k`.
fn is_last_of_name(params: &Vec<Vec<char>>, k: usize) -> (b: bool)
    requires
        k < params@.len(),
    ensures
        b == last_of_name(texts(params@), k as int),
{
    let n = params.len();
    let mut j = k;
    while j < n - 1
        invariant
            k <= j < n == params@.len(),
            forall|i: int| k < i <= j ==> texts(params@)[i] != texts(params@)[k as int],
        decreases n - j,
    {
        j = j + 1;
        if eq_chars(&params[j], &params[k]) {
            assert(texts(params@)[j as int] == texts(params@)[k as int]);
            return false;
        }
    }
    true
}

/// Replaces the parameters of a body line by their arguments.
fn substitute_params_chars(line: &Vec<char>, params: &Vec<Vec<char>>, args: &Vec<Vec<char>>) -> (r: Vec<char>)
    requires
        params@.len() == args@.len(),
    ensures
        r@ == substitute_params(line@, texts(params@), texts(args@)),
{
    let mut l = clone_chars(line);
    let mut k: usize = 0;
    while k < params.len()
        invariant
            k <= params@.len() == args@.len(),
            l@ == substitute_upto(line@, texts(params@), texts(args@), k as nat),
        decreases params@.len() - k,
    {
        if is_last_of_name(params, k) {
            l = substitute_chars(&l, &params[k], &args[k]);
        }
        k = k + 1;
    }
    l
}

/// Makes the local labels of a body line unique.
fn localize_chars(line: &Vec<char>, prefix: &Vec<char>) -> (r: Vec<char>)
    ensures
        r@ == localize(line@, prefix@),
{
    let t = trim_chars(line);
    let mut out: Vec<char> = Vec::new();
    let mut active = false;
    let mut name: Vec<char> = Vec::new();
    let mut i: usize = 0;
    if t.len() > 0 && t[0] == '@' {
        while i < line.len()
            invariant
                i <= line@.len(),
                out@ == local_state_at(line@, prefix@, i as nat).out,
                active == local_state_at(line@, prefix@, i as nat).active,
                name@ == local_state_at(line@, prefix@, i as nat).name,
            decreases line@.len() - i,
        {
            let c = line[i];
            if c == '@' {
                active = true;
                name = Vec::new();
            } else if active {
                if word_char(c) {
                    name.push(c);
                } else {
                    append_chars(&mut out, prefix);
                    append_chars(&mut out, &name);
                    out.push(c);
                    active = false;
                    name = Vec::new();
                }
            } else {
                out.push(c);
            }
            i = i + 1;
            assert(out@ =~= local_state_at(line@, prefix@, i as nat).out);
            assert(name@ =~= local_state_at(line@, prefix@, i as nat).name);
        }
        if active && name.len() > 0 {
            append_chars(&mut out, prefix);
            append_chars(&mut out, &name);
        }
    } else {
        while i < line.len()
            invariant
                i <= line@.len(),
                out@ == local_state(line@, prefix@, i as nat).out,
                active == local_state(line@, prefix@, i as nat).active,
                name@ == local_state(line@, prefix@, i as nat).name,
            decreases line@.len() - i,
        {
            let c = line[i];
            if active && word_char(c) {
                name.push(c);
            } else {
                if active {
                    append_chars(&mut out, prefix);
                    append_chars(&mut out, &name);
                }
                if c == '@' {
                    active = true;
                } else {
                    out.push(c);
                    active = false;
                }
                name = Vec::new();
            }
            i = i + 1;
            assert(out@ =~= local_state(line@, prefix@, i as nat).out);
            assert(name@ =~= local_state(line@, prefix@, i as nat).name);
        }
        if active {
            append_chars(&mut out, prefix);
            append_chars(&mut out, &name);
        }
    }
    out
}

/// Expands a user-defined macro held as characters.
fn expand_user_chars(mac: &MacroChars, args: &Vec<Vec<char>>, line_num: usize, counter: &mut usize) -> (r: Result<
    Vec<Vec<char>>,
    Vec<char>,
>)
    ensures
        match r {
            Ok(ls) => user_expansion(mac@, texts(args@), line_num as nat, *old(counter)) == Ok::<
                (Seq<Seq<char>>, usize),
                Seq<char>,
            >((texts(ls@), *final(counter))),
            Err(e) => user_expansion(mac@, texts(args@), line_num as nat, *old(counter)) == Err::<
                (Seq<Seq<char>>, usize),
                Seq<char>,
            >(e@) && *final(counter) == *old(counter),
        },
{
    if args.len() != mac.params.len() {
        let mut e: Vec<char> = Vec::new();
        push_line_prefix(&mut e, line_num);
        push_str(&mut e, "Macro '");
        append_chars(&mut e, &mac.name);
        push_str(&mut e, "' expects ");
        push_usize(&mut e, mac.params.len());
        push_str(&mut e, " arguments, got ");
        push_usize(&mut e, args.len());
        assert(e@ =~= line_error(
            line_num as nat,
            "Macro '"@ + mac@.name + "' expects "@ + decimal(mac@.params.len()) + " arguments, got "@
                + decimal(texts(args@).len()),
        ));
        return Err(e);
    }
    let prefix = unique_label(&mac.name, counter);
    let ghost body = texts(mac.body@);
    let ghost ps = texts(mac.params@);
    let mut out: Vec<Vec<char>> = Vec::new();
    let mut i: usize = 0;
    while i < mac.body.len()
        invariant
            i <= mac.body@.len(),
            body == texts(mac.body@),
            ps == texts(mac.params@),
            mac.params@.len() == args@.len(),
            texts(out@) =~= Seq::new(
                i as nat,
                |j: int| localize(substitute_params(body[j], ps, texts(args@)), prefix@),
            ),
        decreases mac.body@.len() - i,
    {
        let l = substitute_params_chars(&mac.body[i], &mac.params, args);
        let l = localize_chars(&l, &prefix);
        assert(body[i as int] == mac.body@[i as int]@);
        let ghost before = texts(out@);
        let ghost lv = l@;
        out.push(l);
        assert(texts(out@) =~= before.push(lv));
        i = i + 1;
    }
    Ok(out)
}

/// Expands a user-defined macro invocation with the given arguments.
pub fn expand_user_macro(mac: &UserMacro, args: &[&str], line_num: usize, counter: &mut LabelCounter) -> (r: Result<
    Vec<String>,
    String,
>)
    ensures
        match r {
            Ok(ls) => user_expansion(
                mac@,
                args@.map_values(|a: &str| a@),
                line_num as nat,
                old(counter).next,
            ) == Ok::<(Seq<Seq<char>>, usize), Seq<char>>((strings(ls@), final(counter).next)),
            Err(e) => user_expansion(
                mac@,
                args@.map_values(|a: &str| a@),
                line_num as nat,
                old(counter).next,
            ) == Err::<(Seq<Seq<char>>, usize), Seq<char>>(e@) && final(counter).next == old(
                counter,
            ).next,
        },
{
    let m = macro_chars(mac);
    let mut av: Vec<Vec<char>> = Vec::new();
    let mut i: usize = 0;
    while i < args.len()
        invariant
            i <= args@.len(),
            texts(av@) =~= args@.map_values(|a: &str| a@).take(i as int),
        decreases args@.len() - i,
    {
        let c = chars_of(args[i]);
        let ghost before = texts(av@);
        let ghost cv = c@;
        av.push(c);
        assert(texts(av@) =~= before.push(cv));
        assert(args@.map_values(|a: &str| a@).take(i + 1) =~= args@.map_values(|a: &str| a@).take(
            i as int,
        ).push(args@[i as int]@));
        i = i + 1;
    }
    assert(args@.map_values(|a: &str| a@).take(args@.len() as int) =~= args@.map_values(
        |a: &str| a@,
    ));
    let mut c = counter.next;
    let r = expand_user_chars(&m, &av, line_num, &mut c);
    counter.next = c;
    match r {
        Ok(ls) => Ok(strings_of(&ls)),
        Err(e) => Err(string_of(&e)),
    }
}

/// The strings holding the given texts.
fn strings_of(v: &Vec<Vec<char>>) -> (r: Vec<String>)
    ensures
        strings(r@) == texts(v@),
{
    let mut r: Vec<String> = Vec::new();
    let mut i: usize = 0;
    while i < v.len()
        invariant
            i <= v@.len(),
            strings(r@) =~= texts(v@).take(i as int),
        decreases v@.len() - i,
    {
        let c = string_of(&v[i]);
        let ghost before = strings(r@);
        let ghost cv = c@;
        r.push(c);
        assert(strings(r@) =~= before.push(cv));
        assert(texts(v@).take(i + 1) =~= texts(v@).take(i as int).push(v@[i as int]@));
        i = i + 1;
    }
    assert(texts(v@).take(v@.len() as int) =~= texts(v@));
    r
}

/// The texts of the given strings.
fn texts_of(v: &Vec<String>) -> (r: Vec<Vec<char>>)
    ensures
        texts(r@) == strings(v@),
{
    let mut r: Vec<Vec<char>> = Vec::new();
    let mut i: usize = 0;
    while i < v.len()
        invariant
            i <= v@.len(),
            texts(r@) =~= strings(v@).take(i as int),
        decreases v@.len() - i,
    {
        let c = chars_of(v[i].as_str());
        let ghost before = texts(r@);
        let ghost cv = c@;
        r.push(c);
        assert(texts(r@) =~= before.push(cv));
        assert(strings(v@).take(i + 1) =~= strings(v@).take(i as int).push(v@[i as int]@));
        i = i + 1;
    }
    assert(strings(v@).take(v@.len() as int) =~= strings(v@));
    r
}

/// A user macro held as characters.
fn macro_chars(m: &UserMacro) -> (r: MacroChars)
    ensures
        r@ == m@,
{
    MacroChars { name: chars_of(m.name.as_str()), params: texts_of(&m.params), body: texts_of(&m.body) }
}

/// A macro held as characters, as a user macro.
fn user_macro_of(m: &MacroChars) -> (r: UserMacro)
    ensures
        r@ == m@,
{
    UserMacro { name: string_of(&m.name), params: strings_of(&m.params), body: strings_of(&m.body) }
}

// ---------------------------------------------------------------------------
// Macro definitions
// ---------------------------------------------------------------------------

/// The definitions held by a sequence of user macros.
pub open spec fn user_defs(v: Seq<UserMacro>) -> Seq<MacroDef> {
    v.map_values(|m: UserMacro| m@)
}

/// The definitions held by a sequence of macros held as characters.
spec fn char_defs(v: Seq<MacroChars>) -> Seq<MacroDef> {
    v.map_values(|m: MacroChars| m@)
}

/// Whether a macro named `name` is among `ms`.
pub open spec fn has_macro(ms: Seq<MacroDef>, name: Seq<char>) -> bool {
    exists|i: int| 0 <= i < ms.len() && #[trigger] ms[i].name == name
}

/// What the reader of macro definitions has read so far: the finished
/// macros, the lines outside definitions, whether it is inside a definition,
/// the definition being read and the line where it began, and the error that
/// stopped it, if any.
pub struct DefState {
    pub macros: Seq<MacroDef>,
    pub output: Seq<Seq<char>>,
    pub in_macro: bool,
    pub current: Option<MacroDef>,
    pub start_line: nat,
    pub error: Option<Seq<char>>,
}

/// Reads line number `n`. A line whose code, lowercased, begins with
/// `.macro` or `.def` starts a definition (name, then parameters); a line
/// that is `.endmacro` or `.end` ends it; the lines between form its body;
/// every other line is kept.
pub open spec fn def_step(st: DefState, n: nat, line: Seq<char>) -> DefState {
    if st.error is Some {
        st
    } else {
        let t = trim(cut_at(line, ';'));
        let low = lowercase(t);
        if starts_with(low, ".macro"@) || starts_with(low, ".def"@) {
            if st.in_macro {
                DefState { error: Some(line_error(n, "Nested macro definitions not allowed"@)), ..st }
            } else {
                let parts = words(t);
                if parts.len() < 2 {
                    DefState { error: Some(line_error(n, ".macro requires a name"@)), ..st }
                } else {
                    DefState {
                        in_macro: true,
                        start_line: n,
                        current: Some(
                            MacroDef {
                                name: lowercase(parts[1]),
                                params: parts.skip(2),
                                body: Seq::empty(),
                            },
                        ),
                        ..st
                    }
                }
            }
        } else if low == ".endmacro"@ || low == ".end"@ {
            if !st.in_macro {
                DefState { error: Some(line_error(n, ".endmacro without matching .macro"@)), ..st }
            } else {
                match st.current {
                    Some(m) => if has_macro(st.macros, m.name) {
                        DefState {
                            error: Some(
                                line_error(st.start_line, "Duplicate macro definition: "@ + m.name),
                            ),
                            ..st
                        }
                    } else {
                        DefState { macros: st.macros.push(m), current: None, in_macro: false, ..st }
                    },
                    None => DefState { in_macro: false, ..st },
                }
            }
        } else if st.in_macro {
            match st.current {
                Some(m) => DefState {
                    current: Some(MacroDef { body: m.body.push(line), ..m }),
                    ..st
                },
                None => st,
            }
        } else {
            DefState { output: st.output.push(line), ..st }
        }
    }
}

/// The state after the first `k` lines.
pub open spec fn defs_upto(ls: Seq<Seq<char>>, k: nat) -> DefState
    decreases k,
{
    if k == 0 {
        DefState {
            macros: Seq::empty(),
            output: Seq::empty(),
            in_macro: false,
            current: None,
            start_line: 0,
            error: None,
        }
    } else {
        def_step(defs_upto(ls, (k - 1) as nat), k, ls[k - 1])
    }
}

/// The macros defined in `source` and the rest of its lines joined by
/// newlines; or the first error, or the error for a definition left open.
pub open spec fn definitions(source: Seq<char>) -> Result<(Seq<MacroDef>, Seq<char>), Seq<char>> {
    let ls = lines(source);
    let st = defs_upto(ls, ls.len());
    match st.error {
        Some(e) => Err(e),
        None => if st.in_macro {
            Err(line_error(st.start_line, "Unclosed macro definition"@))
        } else {
            Ok((st.macros, join(st.output, "\n"@)))
        },
    }
}

/// The definition reader's state while it runs.
struct DefReader {
    macros: Vec<MacroChars>,
    output: Vec<Vec<char>>,
    in_macro: bool,
    current: Option<MacroChars>,
    start_line: usize,
}

impl View for DefReader {
    type V = DefState;

    closed spec fn view(&self) -> DefState {
        DefState {
            macros: char_defs(self.macros@),
            output: texts(self.output@),
            in_macro: self.in_macro,
            current: match self.current {
                Some(m) => Some(m@),
                None => None,
            },
            start_line: self.start_line as nat,
            error: None,
        }
    }
}

/// Whether a macro named `name` is among `ms`.
fn has_macro_chars(ms: &Vec<MacroChars>, name: &Vec<char>) -> (b: bool)
    ensures
        b == has_macro(char_defs(ms@), name@),
{
    let mut i: usize = 0;
    while i < ms.len()
        invariant
            i <= ms@.len(),
            forall|j: int| 0 <= j < i ==> char_defs(ms@)[j].name != name@,
        decreases ms@.len() - i,
    {
        assert(char_defs(ms@)[i as int].name == ms@[i as int].name@);
        if eq_chars(&ms[i].name, name) {
            return true;
        }
        i = i + 1;
    }
    false
}

impl DefReader {
    /// Reads line number `n`.
    fn step(&mut self, n: usize, line: &Vec<char>) -> (r: Result<(), Vec<char>>)
        ensures
            match r {
                Ok(()) => def_step(old(self)@, n as nat, line@) == final(self)@,
                Err(e) => def_step(old(self)@, n as nat, line@).error == Some(e@),
            },
    {
        let code = cut_chars(line, ';');
        let t = trim_chars(&code);
        let low = lowercase_chars(&t);
        if starts_with_str(&low, ".macro") || starts_with_str(&low, ".def") {
            if self.in_macro {
                return Err(line_err(n, "Nested macro definitions not allowed"));
            }
            let parts = split_words(&t);
            if parts.len() < 2 {
                return Err(line_err(n, ".macro requires a name"));
            }
            let name = lowercase_chars(&parts[1]);
            assert(texts(parts@)[1] == parts@[1]@);
            let mut params: Vec<Vec<char>> = Vec::new();
            let mut i: usize = 2;
            while i < parts.len()
                invariant
                    2 <= i <= parts@.len(),
                    texts(params@) =~= texts(parts@).subrange(2, i as int),
                decreases parts@.len() - i,
            {
                let p = clone_chars(&parts[i]);
                let ghost before = texts(params@);
                let ghost pv = p@;
                params.push(p);
                assert(texts(params@) =~= before.push(pv));
                i = i + 1;
            }
            let body: Vec<Vec<char>> = Vec::new();
            assert(texts(body@) =~= Seq::<Seq<char>>::empty());
            self.in_macro = true;
            self.start_line = n;
            self.current = Some(MacroChars { name, params, body });
            assert(self@ =~= def_step(old(self)@, n as nat, line@));
            Ok(())
        } else if eq_str(&low, ".endmacro") || eq_str(&low, ".end") {
            if !self.in_macro {
                return Err(line_err(n, ".endmacro without matching .macro"));
            }
            let cur = self.current.take();
            match cur {
                Some(m) => {
                    if has_macro_chars(&self.macros, &m.name) {
                        let mut e: Vec<char> = Vec::new();
                        push_line_prefix(&mut e, self.start_line);
                        push_str(&mut e, "Duplicate macro definition: ");
                        append_chars(&mut e, &m.name);
                        assert(e@ =~= line_error(
                            self.start_line as nat,
                            "Duplicate macro definition: "@ + m@.name,
                        ));
                        return Err(e);
                    }
                    let ghost before = char_defs(self.macros@);
                    let ghost mv = m@;
                    self.macros.push(m);
                    assert(char_defs(self.macros@) =~= before.push(mv));
                    self.in_macro = false;
                },
                None => {
                    self.in_macro = false;
                },
            }
            assert(self@ =~= def_step(old(self)@, n as nat, line@));
            Ok(())
        } else if self.in_macro {
            let cur = self.current.take();
            match cur {
                Some(m) => {
                    let MacroChars { name, params, mut body } = m;
                    let ghost before = texts(body@);
                    let l = clone_chars(line);
                    body.push(l);
                    assert(texts(body@) =~= before.push(line@));
                    self.current = Some(MacroChars { name, params, body });
                },
                None => {},
            }
            assert(self@ =~= def_step(old(self)@, n as nat, line@));
            Ok(())
        } else {
            let ghost before = texts(self.output@);
            let l = clone_chars(line);
            self.output.push(l);
            assert(texts(self.output@) =~= before.push(line@));
            assert(self@ =~= def_step(old(self)@, n as nat, line@));
            Ok(())
        }
    }
}

proof fn lemma_defs_error_stays(ls: Seq<Seq<char>>, k: nat, e: Seq<char>)
    requires
        k <= ls.len(),
        defs_upto(ls, k).error == Some(e),
    ensures
        defs_upto(ls, ls.len()).error == Some(e),
    decreases ls.len() - k,
{
    if k < ls.len() {
        lemma_defs_error_stays(ls, k + 1, e);
    }
}

/// Reads the macro definitions of a source text held as characters.
fn read_definitions(source: &Vec<char>) -> (r: Result<(Vec<MacroChars>, Vec<char>), Vec<char>>)
    ensures
        match r {
            Ok((ms, rest)) => definitions(source@) == Ok::<
                (Seq<MacroDef>, Seq<char>),
                Seq<char>,
            >((char_defs(ms@), rest@)),
            Err(e) => definitions(source@) == Err::<(Seq<MacroDef>, Seq<char>), Seq<char>>(e@),
        },
{
    let ls = split_lines(source);
    let ghost sl = lines(source@);
    let mut rd = DefReader {
        macros: Vec::new(),
        output: Vec::new(),
        in_macro: false,
        current: None,
        start_line: 0,
    };
    assert(char_defs(rd.macros@) =~= Seq::<MacroDef>::empty());
    assert(texts(rd.output@) =~= Seq::<Seq<char>>::empty());
    assert(rd@ == defs_upto(sl, 0));
    let mut i: usize = 0;
    while i < ls.len()
        invariant
            i <= ls@.len(),
            sl == texts(ls@),
            sl == lines(source@),
            rd@ == defs_upto(sl, i as nat),
        decreases ls@.len() - i,
    {
        assert(sl[i as int] == ls@[i as int]@);
        match rd.step(i + 1, &ls[i]) {
            Ok(()) => {},
            Err(e) => {
                proof {
                    lemma_defs_error_stays(sl, (i + 1) as nat, e@);
                }
                return Err(e);
            },
        }
        i = i + 1;
    }
    if rd.in_macro {
        let mut e: Vec<char> = Vec::new();
        push_line_prefix(&mut e, rd.start_line);
        push_str(&mut e, "Unclosed macro definition");
        assert(e@ =~= line_error(rd.start_line as nat, "Unclosed macro definition"@));
        return Err(e);
    }
    let rest = join_chars(&rd.output, "\n");
    Ok((rd.macros, rest))
}

/// Extracts macro definitions from source, returning macros and remaining source.
pub fn parse_macro_definitions(source: &str) -> (r: Result<(Vec<UserMacro>, String), String>)
    ensures
        match r {
            Ok((ms, rest)) => definitions(source@) == Ok::<
                (Seq<MacroDef>, Seq<char>),
                Seq<char>,
            >((user_defs(ms@), rest@)),
            Err(e) => definitions(source@) == Err::<(Seq<MacroDef>, Seq<char>), Seq<char>>(e@),
        },
{
    let text = chars_of(source);
    match read_definitions(&text) {
        Err(e) => Err(string_of(&e)),
        Ok((ms, rest)) => {
            let mut out: Vec<UserMacro> = Vec::new();
            let mut i: usize = 0;
            while i < ms.len()
                invariant
                    i <= ms@.len(),
                    user_defs(out@) =~= char_defs(ms@).take(i as int),
                decreases ms@.len() - i,
            {
                let m = user_macro_of(&ms[i]);
                let ghost before = user_defs(out@);
                let ghost mv = m@;
                out.push(m);
                assert(user_defs(out@) =~= before.push(mv));
                assert(char_defs(ms@).take(i + 1) =~= char_defs(ms@).take(i as int).push(
                    ms@[i as int]@,
                ));
                i = i + 1;
            }
            assert(char_defs(ms@).take(ms@.len() as int) =~= char_defs(ms@));
            Ok((out, string_of(&rest)))
        },
    }
}

// ---------------------------------------------------------------------------
// Expansion
// ---------------------------------------------------------------------------

/// The macro named `name` among `ms` (the last such one).
pub open spec fn find_macro(ms: Seq<MacroDef>, name: Seq<char>) -> Option<MacroDef>
    decreases ms.len(),
{
    if ms.len() == 0 {
        None
    } else if ms.last().name == name {
        Some(ms.last())
    } else {
        find_macro(ms.drop_last(), name)
    }
}

/// Expanding line number `n` with the user macros `ms` and the label counter
/// at `c`. A blank line, a label, or a line whose first word (lowercased)
/// names no macro stays as it is; a call of a user macro or a built-in macro
/// becomes its expansion.
pub open spec fn expand_line(ms: Seq<MacroDef>, n: nat, line: Seq<char>, c: usize) -> Result<
    Expansion,
    Seq<char>,
> {
    let t = trim(cut_at(line, ';'));
    let same = Expansion { lines: seq![line], changed: false, counter: c };
    if t.len() == 0 || t.last() == ':' {
        Ok(same)
    } else {
        let parts = words(t);
        if parts.len() == 0 {
            Ok(same)
        } else {
            let cmd = lowercase(parts[0]);
            match find_macro(ms, cmd) {
                Some(m) => match user_expansion(m, parts.drop_first(), n, c) {
                    Err(e) => Err(e),
                    Ok((ls, c2)) => Ok(Expansion { lines: ls, changed: true, counter: c2 }),
                },
                None => match builtin_expansion(cmd, parts, n, c) {
                    Err(e) => Err(e),
                    Ok(x) => if x.changed {
                        Ok(x)
                    } else {
                        Ok(same)
                    },
                },
            }
        }
    }
}

/// One pass over the first `k` lines: their expansions one after another,
/// whether any line was a macro call, and the label counter afterwards.
pub open spec fn pass_upto(ms: Seq<MacroDef>, ls: Seq<Seq<char>>, k: nat, c: usize) -> Result<
    Expansion,
    Seq<char>,
>
    decreases k,
{
    if k == 0 {
        Ok(Expansion { lines: Seq::empty(), changed: false, counter: c })
    } else {
        match pass_upto(ms, ls, (k - 1) as nat, c) {
            Err(e) => Err(e),
            Ok(acc) => match expand_line(ms, k, ls[k - 1], acc.counter) {
                Err(e) => Err(e),
                Ok(x) => Ok(
                    Expansion {
                        lines: acc.lines + x.lines,
                        changed: acc.changed || x.changed,
                        counter: x.counter,
                    },
                ),
            },
        }
    }
}

/// Expansion passes over `text`, the `k`-th pass first: each pass expands
/// every line and joins the result with newlines; expansion ends with the
/// first pass that finds no macro call, and fails when the tenth pass still
/// finds one.
pub open spec fn expand_passes(ms: Seq<MacroDef>, text: Seq<char>, c: usize, k: nat) -> Result<
    (Seq<char>, usize),
    Seq<char>,
>
    decreases 10 - k,
{
    let ls = lines(text);
    match pass_upto(ms, ls, ls.len(), c) {
        Err(e) => Err(e),
        Ok(x) => {
            let t2 = join(x.lines, "\n"@);
            if !x.changed {
                Ok((t2, x.counter))
            } else if k >= 9 {
                Err("Too many macro expansion passes (possible infinite recursion)"@)
            } else {
                expand_passes(ms, t2, x.counter, k + 1)
            }
        },
    }
}

/// The full expansion of `source` with the label counter at `c`: its macro
/// definitions are read and removed, then its macro calls are expanded.
pub open spec fn expansion(source: Seq<char>, c: usize) -> Result<(Seq<char>, usize), Seq<char>> {
    match definitions(source) {
        Err(e) => Err(e),
        Ok((ms, rest)) => expand_passes(ms, rest, c, 0),
    }
}

/// The label counter after one pass over the first `k` lines. A pass that
/// fails stops at its first failing line, which uses up no label number, so
/// the counter is the one reached after the lines before it.
pub open spec fn pass_counter(ms: Seq<MacroDef>, ls: Seq<Seq<char>>, k: nat, c: usize) -> usize
    decreases k,
{
    match pass_upto(ms, ls, k, c) {
        Ok(x) => x.counter,
        Err(_) => if k == 0 {
            c
        } else {
            pass_counter(ms, ls, (k - 1) as nat, c)
        },
    }
}

/// The label counter after the expansion passes of `expand_passes`, whether
/// they succeed or fail.
pub open spec fn passes_counter(ms: Seq<MacroDef>, text: Seq<char>, c: usize, k: nat) -> usize
    decreases 10 - k,
{
    let ls = lines(text);
    match pass_upto(ms, ls, ls.len(), c) {
        Err(_) => pass_counter(ms, ls, ls.len(), c),
        Ok(x) => if !x.changed || k >= 9 {
            x.counter
        } else {
            passes_counter(ms, join(x.lines, "\n"@), x.counter, k + 1)
        },
    }
}

/// The label counter after expanding `source` from `c`, whether the
/// expansion succeeds or fails; reading the macro definitions uses up none.
pub open spec fn expansion_counter(source: Seq<char>, c: usize) -> usize {
    match definitions(source) {
        Err(_) => c,
        Ok((ms, rest)) => passes_counter(ms, rest, c, 0),
    }
}

proof fn lemma_pass_counter_stays(ms: Seq<MacroDef>, ls: Seq<Seq<char>>, k: nat, j: nat, c: usize)
    requires
        0 < k <= j <= ls.len(),
        pass_upto(ms, ls, (k - 1) as nat, c) is Ok,
        pass_upto(ms, ls, k, c) is Err,
    ensures
        pass_upto(ms, ls, j, c) is Err,
        pass_counter(ms, ls, j, c) == pass_upto(ms, ls, (k - 1) as nat, c)->Ok_0.counter,
    decreases j,
{
    if j > k {
        lemma_pass_counter_stays(ms, ls, k, (j - 1) as nat, c);
    } else {
        assert(pass_counter(ms, ls, (k - 1) as nat, c) == pass_upto(ms, ls, (k - 1) as nat, c)->Ok_0.counter);
    }
}

/// Looks a macro up among the first `n` macros.
fn find_macro_index(ms: &Vec<MacroChars>, n: usize, name: &Vec<char>) -> (r: Option<usize>)
    requires
        n <= ms@.len(),
    ensures
        match r {
            Some(i) => i < n && find_macro(char_defs(ms@).take(n as int), name@) == Some(
                char_defs(ms@)[i as int],
            ),
            None => find_macro(char_defs(ms@).take(n as int), name@) is None,
        },
    decreases n,
{
    if n == 0 {
        return None;
    }
    let ghost d = char_defs(ms@);
    assert(d.take(n as int).drop_last() =~= d.take(n - 1));
    assert(d.take(n as int).last() == d[n - 1]);
    assert(d[n - 1].name == ms@[n - 1].name@);
    if eq_chars(&ms[n - 1].name, name) {
        Some(n - 1)
    } else {
        find_macro_index(ms, n - 1, name)
    }
}

/// Expands one line.
fn expand_line_chars(ms: &Vec<MacroChars>, n: usize, line: &Vec<char>, counter: &mut usize) -> (r: Result<
    (Vec<Vec<char>>, bool),
    Vec<char>,
>)
    ensures
        match r {
            Ok((ls, ch)) => expand_line(char_defs(ms@), n as nat, line@, *old(counter)) == Ok::<
                Expansion,
                Seq<char>,
            >(Expansion { lines: texts(ls@), changed: ch, counter: *final(counter) }),
            Err(e) => expand_line(char_defs(ms@), n as nat, line@, *old(counter)) == Err::<
                Expansion,
                Seq<char>,
            >(e@) && *final(counter) == *old(counter),
        },
{
    let code = cut_chars(line, ';');
    let t = trim_chars(&code);
    let mut same: Vec<Vec<char>> = Vec::new();
    same.push(clone_chars(line));
    assert(texts(same@) =~= seq![line@]);
    if t.len() == 0 || t[t.len() - 1] == ':' {
        return Ok((same, false));
    }
    let parts = split_words(&t);
    if parts.len() == 0 {
        return Ok((same, false));
    }
    assert(texts(parts@)[0] == parts@[0]@);
    let cmd = lowercase_chars(&parts[0]);
    let nm = ms.len();
    assert(char_defs(ms@).take(nm as int) =~= char_defs(ms@));
    match find_macro_index(ms, nm, &cmd) {
        Some(i) => {
            let args = sub_texts(&parts, 1);
            assert(texts(args@) =~= texts(parts@).drop_first());
            let ls = expand_user_chars(&ms[i], &args, n, counter)?;
            Ok((ls, true))
        },
        None => {
            let (ls, changed) = expand_builtin_macro(&cmd, &parts, n, counter)?;
            if changed {
                Ok((ls, true))
            } else {
                Ok((same, false))
            }
        },
    }
}

/// Copies the texts from index `lo` on.
fn sub_texts(v: &Vec<Vec<char>>, lo: usize) -> (r: Vec<Vec<char>>)
    requires
        lo <= v@.len(),
    ensures
        texts(r@) == texts(v@).subrange(lo as int, v@.len() as int),
{
    let mut r: Vec<Vec<char>> = Vec::new();
    let mut i = lo;
    while i < v.len()
        invariant
            lo <= i <= v@.len(),
            texts(r@) =~= texts(v@).subrange(lo as int, i as int),
        decreases v@.len() - i,
    {
        let c = clone_chars(&v[i]);
        let ghost before = texts(r@);
        let ghost cv = c@;
        r.push(c);
        assert(texts(r@) =~= before.push(cv));
        i = i + 1;
    }
    r
}

proof fn lemma_pass_error_stays(ms: Seq<MacroDef>, ls: Seq<Seq<char>>, k: nat, c: usize, e: Seq<char>)
    requires
        k <= ls.len(),
        pass_upto(ms, ls, k, c) == Err::<Expansion, Seq<char>>(e),
    ensures
        pass_upto(ms, ls, ls.len(), c) == Err::<Expansion, Seq<char>>(e),
    decreases ls.len() - k,
{
    if k < ls.len() {
        lemma_pass_error_stays(ms, ls, k + 1, c, e);
    }
}

/// One expansion pass over a text.
fn expand_pass(ms: &Vec<MacroChars>, text: &Vec<char>, counter: &mut usize) -> (r: Result<
    (Vec<Vec<char>>, bool),
    Vec<char>,
>)
    ensures
        ({
            let ls = lines(text@);
            match r {
                Ok((out, ch)) => pass_upto(char_defs(ms@), ls, ls.len(), *old(counter)) == Ok::<
                    Expansion,
                    Seq<char>,
                >(Expansion { lines: texts(out@), changed: ch, counter: *final(counter) }),
                Err(e) => pass_upto(char_defs(ms@), ls, ls.len(), *old(counter)) == Err::<
                    Expansion,
                    Seq<char>,
                >(e@) && *final(counter) == pass_counter(
                    char_defs(ms@),
                    ls,
                    ls.len(),
                    *old(counter),
                ),
            }
        }),
{
    let ghost c0 = *counter;
    let ls = split_lines(text);
    let ghost sl = lines(text@);
    let mut out: Vec<Vec<char>> = Vec::new();
    let mut changed = false;
    let mut i: usize = 0;
    assert(texts(out@) =~= Seq::<Seq<char>>::empty());
    while i < ls.len()
        invariant
            i <= ls@.len(),
            c0 == *old(counter),
            sl == texts(ls@),
            sl == lines(text@),
            pass_upto(char_defs(ms@), sl, i as nat, c0) == Ok::<Expansion, Seq<char>>(
                Expansion { lines: texts(out@), changed, counter: *counter },
            ),
        decreases ls@.len() - i,
    {
        assert(sl[i as int] == ls@[i as int]@);
        match expand_line_chars(ms, i + 1, &ls[i], counter) {
            Err(e) => {
                proof {
                    lemma_pass_error_stays(char_defs(ms@), sl, (i + 1) as nat, c0, e@);
                    lemma_pass_counter_stays(char_defs(ms@), sl, (i + 1) as nat, sl.len(), c0);
                }
                return Err(e);
            },
            Ok((new_lines, ch)) => {
                let ghost before = texts(out@);
                let mut k: usize = 0;
                while k < new_lines.len()
                    invariant
                        k <= new_lines@.len(),
                        texts(out@) =~= before + texts(new_lines@).take(k as int),
                    decreases new_lines@.len() - k,
                {
                    let l = clone_chars(&new_lines[k]);
                    let ghost b2 = texts(out@);
                    let ghost lv = l@;
                    out.push(l);
                    assert(texts(out@) =~= b2.push(lv));
                    assert(texts(new_lines@).take(k + 1) =~= texts(new_lines@).take(k as int).push(
                        new_lines@[k as int]@,
                    ));
                    k = k + 1;
                }
                assert(texts(new_lines@).take(new_lines@.len() as int) =~= texts(new_lines@));
                changed = changed || ch;
            },
        }
        i = i + 1;
    }
    Ok((out, changed))
}

/// Expands the macro calls of a text, pass after pass.
fn expand_calls(ms: &Vec<MacroChars>, text: Vec<char>, counter: &mut usize) -> (r: Result<
    Vec<char>,
    Vec<char>,
>)
    ensures
        match r {
            Ok(t) => expand_passes(char_defs(ms@), text@, *old(counter), 0) == Ok::<
                (Seq<char>, usize),
                Seq<char>,
            >((t@, *final(counter))),
            Err(e) => expand_passes(char_defs(ms@), text@, *old(counter), 0) == Err::<
                (Seq<char>, usize),
                Seq<char>,
            >(e@) && *final(counter) == passes_counter(char_defs(ms@), text@, *old(counter), 0),
        },
{
    let ghost goal = expand_passes(char_defs(ms@), text@, *counter, 0);
    let mut current = text;
    let mut pass: usize = 0;
    loop
        invariant
            pass <= 9,
            goal == expand_passes(char_defs(ms@), text@, *old(counter), 0),
            expand_passes(char_defs(ms@), current@, *counter, pass as nat) == goal,
            passes_counter(char_defs(ms@), current@, *counter, pass as nat) == passes_counter(
                char_defs(ms@),
                text@,
                *old(counter),
                0,
            ),
        decreases 9 - pass,
    {
        let (out, changed) = expand_pass(ms, &current, counter)?;
        current = join_chars(&out, "\n");
        if !changed {
            return Ok(current);
        }
        if pass == 9 {
            let e = chars_of("Too many macro expansion passes (possible infinite recursion)");
            return Err(e);
        }
        pass = pass + 1;
    }
}

/// Expands all macros of a source text held as characters.
pub(crate) fn expand_text(source: &Vec<char>, counter: &mut usize) -> (r: Result<Vec<char>, Vec<char>>)
    ensures
        match r {
            Ok(t) => expansion(source@, *old(counter)) == Ok::<(Seq<char>, usize), Seq<char>>(
                (t@, *final(counter)),
            ),
            Err(e) => expansion(source@, *old(counter)) == Err::<(Seq<char>, usize), Seq<char>>(
                e@,
            ) && *final(counter) == expansion_counter(source@, *old(counter)),
        },
{
    let (ms, rest) = read_definitions(source)?;
    expand_calls(&ms, rest, counter)
}

/// Expands all macros (user-defined and built-in) in the source code.
///
/// Performs multiple passes to handle nested macro calls.
pub fn expand_macros(source: &str, counter: &mut LabelCounter) -> (r: Result<String, String>)
    ensures
        match r {
            Ok(t) => expansion(source@, old(counter).next) == Ok::<(Seq<char>, usize), Seq<char>>(
                (t@, final(counter).next),
            ),
            Err(e) => expansion(source@, old(counter).next) == Err::<
                (Seq<char>, usize),
                Seq<char>,
            >(e@) && final(counter).next == expansion_counter(source@, old(counter).next),
        },
{
    let text = chars_of(source);
    let mut c = counter.next;
    let r = expand_text(&text, &mut c);
    counter.next = c;
    match r {
        Ok(t) => Ok(string_of(&t)),
        Err(e) => Err(string_of(&e)),
    }
}

} // verus!
