//! What macro expansion promises of every input: comments do not change a
//! call, every parameter of a user macro is replaced, local labels get the
//! call's prefix, and parameters are kept as written.
use vstd::prelude::*;

use super::macros::{
    def_step, expand_line, flush_word, is_word_char, last_of_name, substitute, substitute_params,
    substitute_state, substitute_upto, local_state, local_state_at, localize, DefState, Expansion,
    MacroDef, ScanState,
};
use crate::text::{
    cut_at, is_ws, join, lemma_cut_at_take, lemma_trim_cut_plain, lemma_trim_space, lemma_words_join,
    lowercase, plain_word, starts_with, trim, words, lemma_trim_first,
};

verus! {

/// A comment after a line does not change how the line expands: with
/// `; k` added, a macro call expands to the same lines with the same
/// counter, an error stays the same error, and any other line is still kept
/// as it is, comment included.
pub proof fn lemma_comment_ignored(ms: Seq<MacroDef>, n: nat, line: Seq<char>, k: Seq<char>, c: usize)
    requires
        forall|j: int| 0 <= j < line.len() ==> line[j] != ';',
    ensures
        expand_line(ms, n, line + " ;"@ + k, c) == match expand_line(ms, n, line, c) {
            Ok(x) => if x.changed {
                Ok::<Expansion, Seq<char>>(x)
            } else {
                Ok(Expansion { lines: seq![line + " ;"@ + k], changed: false, counter: c })
            },
            Err(e) => Err(e),
        },
{
    reveal_strlit(" ;");
    reveal_strlit(" ");
    let l2 = line + " ;"@ + k;
    let i = line.len() as int;
    assert(l2[i] == ' ');
    assert(l2[i + 1] == ';');
    assert forall|j: int| 0 <= j < i + 1 implies l2[j] != ';' by {
        if j < i {
            assert(l2[j] == line[j]);
        }
    }
    lemma_cut_at_take(l2, ';', i + 1);
    assert(l2.take(i + 1) =~= line + " "@);
    lemma_cut_at_take(line, ';', i);
    assert(line.take(i) =~= line);
    lemma_trim_space(line);
    assert(trim(cut_at(l2, ';')) == trim(cut_at(line, ';')));
}

/// Words joined by spaces: no `;` when no word has one, and the text begins
/// with the first word's first character and ends with the last word's last.
proof fn lemma_join_words(ws: Seq<Seq<char>>)
    requires
        ws.len() > 0,
        forall|i: int| 0 <= i < ws.len() ==> plain_word(#[trigger] ws[i]),
        forall|i: int, j: int| 0 <= i < ws.len() && 0 <= j < ws[i].len() ==> #[trigger] ws[i][j] != ';',
    ensures
        forall|j: int| 0 <= j < join(ws, " "@).len() ==> #[trigger] join(ws, " "@)[j] != ';',
        join(ws, " "@).len() > 0,
        join(ws, " "@)[0] == ws[0][0],
        join(ws, " "@).last() == ws.last().last(),
    decreases ws.len(),
{
    reveal_strlit(" ");
    assert(plain_word(ws[0]));
    assert(plain_word(ws[ws.len() - 1]));
    if ws.len() > 1 {
        let a = ws.drop_last();
        assert forall|i: int| 0 <= i < a.len() implies plain_word(#[trigger] a[i]) by {
            assert(a[i] == ws[i]);
        }
        assert forall|i: int, j: int| 0 <= i < a.len() && 0 <= j < a[i].len() implies #[trigger] a[i][j] != ';' by {
            assert(a[i] == ws[i]);
            assert(ws[i][j] != ';');
        }
        lemma_join_words(a);
        let x = join(a, " "@);
        let l = ws.last();
        assert(join(ws, " "@) == x + " "@ + l);
        assert forall|j: int| 0 <= j < join(ws, " "@).len() implies #[trigger] join(ws, " "@)[j] != ';' by {
            if j < x.len() {
                assert(join(ws, " "@)[j] == x[j]);
            } else if j > x.len() {
                assert(join(ws, " "@)[j] == l[j - x.len() - 1]);
                assert(ws[ws.len() - 1][j - x.len() - 1] != ';');
            }
        }
        assert(a[0] == ws[0]);
    } else {
        assert forall|j: int| 0 <= j < join(ws, " "@).len() implies #[trigger] join(ws, " "@)[j] != ';' by {
            assert(ws[0][j] != ';');
        }
    }
}

/// A definition line keeps its parameters exactly as written: the line
/// `d name p1 p2 ...` (its directive word lowercasing to `.macro` or `.def`)
/// opens the macro `name` (lowercased) whose parameters are `p1, p2, ...`,
/// letter for letter, and whose body is still empty.
pub proof fn lemma_definition_params_as_written(
    st: DefState,
    n: nat,
    d: Seq<char>,
    name: Seq<char>,
    ps: Seq<Seq<char>>,
)
    requires
        st.error is None,
        !st.in_macro,
        ({
            let ws = seq![d, name] + ps;
            &&& forall|i: int| 0 <= i < ws.len() ==> plain_word(#[trigger] ws[i])
            &&& forall|i: int, j: int| 0 <= i < ws.len() && 0 <= j < ws[i].len() ==> #[trigger] ws[i][j] != ';'
            &&& starts_with(lowercase(join(ws, " "@)), ".macro"@) || starts_with(lowercase(join(ws, " "@)), ".def"@)
        }),
    ensures
        def_step(st, n, join(seq![d, name] + ps, " "@)) == (DefState {
            in_macro: true,
            start_line: n,
            current: Some(MacroDef { name: lowercase(name), params: ps, body: Seq::empty() }),
            ..st
        }),
{
    let ws = seq![d, name] + ps;
    let line = join(ws, " "@);
    assert(ws[0] == d && ws[1] == name);
    assert(ws.len() >= 2);
    lemma_join_words(ws);
    assert(plain_word(ws[0]));
    assert(plain_word(ws[ws.len() - 1]));
    assert(ws.last() == ws[ws.len() - 1]);
    assert(ws.last().last() == ws[ws.len() - 1][ws[ws.len() - 1].len() - 1]);
    let e = Seq::<char>::empty();
    assert(e + line =~= line);
    lemma_trim_cut_plain(e, line, ';');
    lemma_words_join(ws);
    assert(ws.skip(2) =~= ps);
}

/// Whether every character of `w` is a word character.
pub open spec fn all_word_chars(w: Seq<char>) -> bool {
    forall|j: int| 0 <= j < w.len() ==> is_word_char(#[trigger] w[j])
}

/// Whether `s` is empty or ends with a character that is no word character,
/// so that a word written after it starts a word of its own.
pub open spec fn ends_word(s: Seq<char>) -> bool {
    s.len() == 0 || !is_word_char(s.last())
}

/// The scan that replaces words never stands inside a local label.
proof fn lemma_substitute_inactive(s: Seq<char>, p: Seq<char>, a: Seq<char>, k: nat)
    ensures
        !substitute_state(s, p, a, k).active,
    decreases k,
{
    if k > 0 {
        lemma_substitute_inactive(s, p, a, (k - 1) as nat);
    }
}

/// The scan of `s + w` reads `s` as it reads `s` alone, and then, when `s`
/// ends a word and `w` is made of word characters, gathers `w` as one word.
proof fn lemma_substitute_scan(s: Seq<char>, w: Seq<char>, p: Seq<char>, a: Seq<char>, k: nat)
    requires
        ends_word(s),
        all_word_chars(w),
        k <= s.len() + w.len(),
    ensures
        k <= s.len() ==> substitute_state(s + w, p, a, k) == substitute_state(s, p, a, k),
        k >= s.len() ==> substitute_state(s + w, p, a, k) == (ScanState {
            out: substitute_state(s, p, a, s.len()).out,
            active: false,
            name: w.take(k - s.len()),
        }),
    decreases k,
{
    let x = s + w;
    lemma_substitute_inactive(s, p, a, k);
    lemma_substitute_inactive(x, p, a, k);
    if k > 0 {
        lemma_substitute_scan(s, w, p, a, (k - 1) as nat);
        if k <= s.len() {
            assert(x[k - 1] == s[k - 1]);
            if k == s.len() {
                assert(s.last() == s[k - 1]);
                assert(!is_word_char(s[k - 1]));
                assert(substitute_state(s, p, a, k).name.len() == 0);
                assert(w.take(0) =~= Seq::<char>::empty());
            }
        } else {
            assert(x[k - 1] == w[k - 1 - s.len()]);
            assert(is_word_char(w[k - 1 - s.len()]));
            assert(w.take(k - s.len()) =~= w.take(k - 1 - s.len()).push(w[k - 1 - s.len()]));
            if k - 1 == s.len() {
                if s.len() == 0 {
                } else {
                    assert(s.last() == s[s.len() - 1]);
                    assert(!is_word_char(s[k - 2]));
                    assert(substitute_state(s, p, a, s.len()).name.len() == 0);
                }
                assert(w.take(0) =~= Seq::<char>::empty());
            }
        }
    } else {
        assert(w.take(0) =~= Seq::<char>::empty());
    }
}

/// Replacing one parameter in a text that ends a word followed by a word:
/// the text is replaced on its own and the word on its own; the replaced
/// text still ends as the text did.
proof fn lemma_substitute_split(s: Seq<char>, w: Seq<char>, p: Seq<char>, a: Seq<char>)
    requires
        ends_word(s),
        all_word_chars(w),
    ensures
        substitute(s + w, p, a) == substitute(s, p, a) + substitute(w, p, a),
        substitute(w, p, a) == flush_word(w, p, a),
        s.len() == 0 ==> substitute(s, p, a).len() == 0,
        s.len() > 0 ==> substitute(s, p, a).len() > 0 && substitute(s, p, a).last() == s.last(),
{
    let e = Seq::<char>::empty();
    lemma_substitute_scan(s, w, p, a, (s.len() + w.len()) as nat);
    lemma_substitute_scan(e, w, p, a, w.len());
    lemma_substitute_scan(s, e, p, a, s.len());
    assert(s + e =~= s);
    assert(e + w =~= w);
    assert(w.take(w.len() as int) =~= w);
    assert(e.take(0) =~= e);
    assert(substitute_state(e, p, a, 0).out =~= e);
    assert(flush_word(e, p, a) =~= e);
    let st = substitute_state(s, p, a, s.len());
    if s.len() > 0 {
        let prev = substitute_state(s, p, a, (s.len() - 1) as nat);
        assert(s.last() == s[s.len() - 1]);
        assert(st.out == prev.out + flush_word(prev.name, p, a) + seq![s[s.len() - 1]]);
        assert(st.name.len() == 0);
    }
}

/// Replacing every parameter in a text that ends a word followed by a word,
/// with arguments made of word characters: the text and the word are
/// replaced each on its own.
pub proof fn lemma_substitute_params_split(
    s: Seq<char>,
    w: Seq<char>,
    params: Seq<Seq<char>>,
    args: Seq<Seq<char>>,
)
    requires
        ends_word(s),
        all_word_chars(w),
        params.len() == args.len(),
        forall|i: int| 0 <= i < args.len() ==> all_word_chars(#[trigger] args[i]),
    ensures
        substitute_params(s + w, params, args) == substitute_params(s, params, args)
            + substitute_params(w, params, args),
{
    lemma_substitute_upto_split(s, w, params, args, params.len());
}

proof fn lemma_substitute_upto_split(
    s: Seq<char>,
    w: Seq<char>,
    params: Seq<Seq<char>>,
    args: Seq<Seq<char>>,
    k: nat,
)
    requires
        ends_word(s),
        all_word_chars(w),
        k <= params.len() == args.len(),
        forall|i: int| 0 <= i < args.len() ==> all_word_chars(#[trigger] args[i]),
    ensures
        substitute_upto(s + w, params, args, k) == substitute_upto(s, params, args, k)
            + substitute_upto(w, params, args, k),
        all_word_chars(substitute_upto(w, params, args, k)),
        s.len() == 0 ==> substitute_upto(s, params, args, k).len() == 0,
        s.len() > 0 ==> substitute_upto(s, params, args, k).len() > 0 && substitute_upto(
            s,
            params,
            args,
            k,
        ).last() == s.last(),
    decreases k,
{
    if k > 0 {
        lemma_substitute_upto_split(s, w, params, args, (k - 1) as nat);
        let a = substitute_upto(s, params, args, (k - 1) as nat);
        let b = substitute_upto(w, params, args, (k - 1) as nat);
        if last_of_name(params, k - 1) {
            lemma_substitute_split(a, b, params[k - 1], args[k - 1]);
            assert(all_word_chars(args[k - 1]));
        }
    }
}

/// Every parameter is replaced: a word that is the `k`-th parameter, with no
/// later parameter of the same name, becomes the `k`-th argument, whatever
/// its place among the parameters, when that argument is made of word
/// characters and is itself no parameter's name. For a name given twice the
/// argument given last is the one used.
pub proof fn lemma_substitute_params_word(params: Seq<Seq<char>>, args: Seq<Seq<char>>, k: int)
    requires
        params.len() == args.len(),
        0 <= k < params.len(),
        forall|j: int| k < j < params.len() ==> params[j] != params[k],
        params[k].len() > 0,
        all_word_chars(params[k]),
        all_word_chars(args[k]),
        forall|i: int| 0 <= i < params.len() ==> args[k] != #[trigger] params[i],
    ensures
        substitute_params(params[k], params, args) == args[k],
{
    lemma_substitute_word_upto(params, args, k, params.len());
}

proof fn lemma_substitute_word_upto(params: Seq<Seq<char>>, args: Seq<Seq<char>>, k: int, m: nat)
    requires
        params.len() == args.len(),
        0 <= k < params.len(),
        m <= params.len(),
        forall|j: int| k < j < params.len() ==> params[j] != params[k],
        params[k].len() > 0,
        all_word_chars(params[k]),
        all_word_chars(args[k]),
        forall|i: int| 0 <= i < params.len() ==> args[k] != #[trigger] params[i],
    ensures
        substitute_upto(params[k], params, args, m) == if m <= k {
            params[k]
        } else {
            args[k]
        },
    decreases m,
{
    if m > 0 {
        lemma_substitute_word_upto(params, args, k, (m - 1) as nat);
        let i = m - 1;
        let cur = substitute_upto(params[k], params, args, (m - 1) as nat);
        let e = Seq::<char>::empty();
        assert(e + cur =~= cur);
        lemma_substitute_split(e, cur, params[i], args[i]);
        if i < k {
            if last_of_name(params, i) {
                assert(params[k] != params[i]);
            }
        } else if i > k {
            assert(args[k] != params[i]);
        } else {
            assert(last_of_name(params, i));
        }
    }
}

/// What the scan of `s @x u` has produced after `k` characters, for a line
/// that does not begin with `@`.
spec fn local_expect(s: Seq<char>, x: Seq<char>, u: Seq<char>, p: Seq<char>, k: nat) -> ScanState {
    if k <= s.len() {
        ScanState { out: s.take(k as int), active: false, name: Seq::empty() }
    } else if k <= s.len() + 1 + x.len() {
        ScanState { out: s, active: true, name: x.take(k - s.len() - 1) }
    } else {
        ScanState { out: s + p + x + u.take(k - s.len() - 1 - x.len()), active: false, name: Seq::empty() }
    }
}

proof fn lemma_local_scan(s: Seq<char>, x: Seq<char>, u: Seq<char>, p: Seq<char>, k: nat)
    requires
        forall|j: int| 0 <= j < s.len() ==> #[trigger] s[j] != '@',
        all_word_chars(x),
        forall|j: int| 0 <= j < u.len() ==> #[trigger] u[j] != '@',
        u.len() == 0 || !is_word_char(u[0]),
        k <= s.len() + 1 + x.len() + u.len(),
    ensures
        local_state(s + seq!['@'] + x + u, p, k) == local_expect(s, x, u, p, k),
    decreases k,
{
    let l = s + seq!['@'] + x + u;
    let sl = s.len() as int;
    let xl = x.len() as int;
    if k == 0 {
        assert(s.take(0) =~= Seq::<char>::empty());
    } else {
        lemma_local_scan(s, x, u, p, (k - 1) as nat);
        let i = k - 1;
        if i < sl {
            assert(l[i] == s[i]);
            assert(s.take(k as int) =~= s.take(i).push(s[i]));
        } else if i == sl {
            assert(l[i] == '@');
            assert(s.take(sl) =~= s);
            assert(x.take(0) =~= Seq::<char>::empty());
        } else if i < sl + 1 + xl {
            assert(l[i] == x[i - sl - 1]);
            assert(is_word_char(x[i - sl - 1]));
            assert(x.take(k - sl - 1) =~= x.take(i - sl - 1).push(x[i - sl - 1]));
        } else if i == sl + 1 + xl {
            assert(l[i] == u[0]);
            assert(x.take(xl) =~= x);
            assert(u.take(1) =~= seq![u[0]]);
            assert(u.len() > 0);
            assert(!is_word_char(u[0]) && u[0] != '@');
            let prev = local_state(l, p, (k - 1) as nat);
            assert(prev.active && prev.name == x && prev.out == s);
            assert((s + p + x).push(u[0]) =~= s + p + x + u.take(1));
        } else {
            let m = i - sl - 1 - xl;
            assert(l[i] == u[m]);
            assert(u.take(m + 1) =~= u.take(m).push(u[m]));
        }
    }
}

/// Local labels in a line that does not begin with `@`: a local label `@x`
/// is written as the call's prefix followed by `x`, whether it stands
/// inside the line or ends it, and the rest of the line is kept.
pub proof fn lemma_localize_label_use(
    sp: Seq<char>,
    r: Seq<char>,
    x: Seq<char>,
    u: Seq<char>,
    p: Seq<char>,
)
    requires
        forall|j: int| 0 <= j < sp.len() ==> is_ws(#[trigger] sp[j]),
        r.len() > 0,
        !is_ws(r[0]),
        forall|j: int| 0 <= j < r.len() ==> #[trigger] r[j] != '@',
        all_word_chars(x),
        forall|j: int| 0 <= j < u.len() ==> #[trigger] u[j] != '@',
        u.len() == 0 || !is_word_char(u[0]),
    ensures
        localize(sp + r + seq!['@'] + x + u, p) == sp + r + p + x + u,
{
    let s = sp + r;
    let l = s + seq!['@'] + x + u;
    assert(sp + r + seq!['@'] + x + u =~= l);
    assert forall|j: int| 0 <= j < s.len() implies #[trigger] s[j] != '@' by {
        if j < sp.len() {
            assert(s[j] == sp[j]);
            assert(is_ws(sp[j]));
        } else {
            assert(s[j] == r[j - sp.len()]);
        }
    }
    let v = r + seq!['@'] + x + u;
    assert(l =~= sp + v);
    assert(v[0] == r[0]);
    lemma_trim_first(sp, v);
    assert(r[0] != '@');
    lemma_local_scan(s, x, u, p, l.len());
    assert(l.len() == s.len() + 1 + x.len() + u.len());
    assert(u.take(u.len() as int) =~= u);
    assert(x.take(x.len() as int) =~= x);
}

proof fn lemma_local_scan_at(s: Seq<char>, x: Seq<char>, u: Seq<char>, p: Seq<char>, k: nat)
    requires
        forall|j: int| 0 <= j < s.len() ==> #[trigger] s[j] != '@',
        all_word_chars(x),
        forall|j: int| 0 <= j < x.len() ==> #[trigger] x[j] != '@',
        forall|j: int| 0 <= j < u.len() ==> #[trigger] u[j] != '@',
        u.len() == 0 || !is_word_char(u[0]),
        k <= s.len() + 1 + x.len() + u.len(),
    ensures
        local_state_at(s + seq!['@'] + x + u, p, k) == local_expect(s, x, u, p, k),
    decreases k,
{
    let l = s + seq!['@'] + x + u;
    let sl = s.len() as int;
    let xl = x.len() as int;
    if k == 0 {
        assert(s.take(0) =~= Seq::<char>::empty());
    } else {
        lemma_local_scan_at(s, x, u, p, (k - 1) as nat);
        let i = k - 1;
        if i < sl {
            assert(l[i] == s[i]);
            assert(s.take(k as int) =~= s.take(i).push(s[i]));
        } else if i == sl {
            assert(l[i] == '@');
            assert(s.take(sl) =~= s);
            assert(x.take(0) =~= Seq::<char>::empty());
        } else if i < sl + 1 + xl {
            assert(l[i] == x[i - sl - 1]);
            assert(is_word_char(x[i - sl - 1]));
            assert(x.take(k - sl - 1) =~= x.take(i - sl - 1).push(x[i - sl - 1]));
        } else if i == sl + 1 + xl {
            assert(l[i] == u[0]);
            assert(x.take(xl) =~= x);
            assert(u.len() > 0);
            assert(!is_word_char(u[0]) && u[0] != '@');
            let prev = local_state_at(l, p, (k - 1) as nat);
            assert(prev.active && prev.name == x && prev.out == s);
            assert(s + p + x + seq![u[0]] =~= s + p + x + u.take(1));
        } else {
            let m = i - sl - 1 - xl;
            assert(l[i] == u[m]);
            assert(u.take(m + 1) =~= u.take(m).push(u[m]));
        }
    }
}

/// Local labels in a line that begins with `@`, such as the label line
/// `@x:` of a macro body: the label is written as the call's prefix followed
/// by `x`, and the rest of the line is kept.
pub proof fn lemma_localize_label_line(sp: Seq<char>, x: Seq<char>, u: Seq<char>, p: Seq<char>)
    requires
        forall|j: int| 0 <= j < sp.len() ==> is_ws(#[trigger] sp[j]),
        x.len() > 0,
        all_word_chars(x),
        forall|j: int| 0 <= j < x.len() ==> #[trigger] x[j] != '@',
        forall|j: int| 0 <= j < u.len() ==> #[trigger] u[j] != '@',
        u.len() == 0 || !is_word_char(u[0]),
    ensures
        localize(sp + seq!['@'] + x + u, p) == sp + p + x + u,
{
    let l = sp + seq!['@'] + x + u;
    assert forall|j: int| 0 <= j < sp.len() implies #[trigger] sp[j] != '@' by {
        assert(is_ws(sp[j]));
    }
    let v = seq!['@'] + x + u;
    assert(l =~= sp + v);
    assert(v[0] == '@');
    assert(!is_ws('@'));
    lemma_trim_first(sp, v);
    lemma_local_scan_at(sp, x, u, p, l.len());
    assert(l.len() == sp.len() + 1 + x.len() + u.len());
    assert(u.take(u.len() as int) =~= u);
    assert(x.take(x.len() as int) =~= x);
}

/// A word that is no parameter's name stays as it is.
pub proof fn lemma_substitute_params_keeps_word(w: Seq<char>, params: Seq<Seq<char>>, args: Seq<Seq<char>>)
    requires
        params.len() == args.len(),
        all_word_chars(w),
        forall|i: int| 0 <= i < params.len() ==> w != #[trigger] params[i],
    ensures
        substitute_params(w, params, args) == w,
{
    lemma_keeps_word_upto(w, params, args, params.len());
}

proof fn lemma_keeps_word_upto(w: Seq<char>, params: Seq<Seq<char>>, args: Seq<Seq<char>>, m: nat)
    requires
        m <= params.len() == args.len(),
        all_word_chars(w),
        forall|i: int| 0 <= i < params.len() ==> w != #[trigger] params[i],
    ensures
        substitute_upto(w, params, args, m) == w,
    decreases m,
{
    if m > 0 {
        lemma_keeps_word_upto(w, params, args, (m - 1) as nat);
        let e = Seq::<char>::empty();
        assert(e + w =~= w);
        lemma_substitute_split(e, w, params[m - 1], args[m - 1]);
        assert(w != params[m - 1]);
    }
}

proof fn lemma_substitute_plain_scan(s: Seq<char>, p: Seq<char>, a: Seq<char>, k: nat)
    requires
        k <= s.len(),
        forall|j: int| 0 <= j < s.len() ==> !is_word_char(#[trigger] s[j]),
    ensures
        substitute_state(s, p, a, k).out == s.take(k as int),
        substitute_state(s, p, a, k).name.len() == 0,
    decreases k,
{
    if k == 0 {
        assert(s.take(0) =~= Seq::<char>::empty());
    } else {
        lemma_substitute_plain_scan(s, p, a, (k - 1) as nat);
        assert(!is_word_char(s[k - 1]));
        let st = substitute_state(s, p, a, (k - 1) as nat);
        assert(flush_word(st.name, p, a) =~= Seq::<char>::empty());
        assert(s.take(k as int) =~= s.take(k - 1) + Seq::<char>::empty() + seq![s[k - 1]]);
    }
}

/// A text without word characters (spaces, `#`, punctuation) stays as it is.
pub proof fn lemma_substitute_params_keeps_plain(s: Seq<char>, params: Seq<Seq<char>>, args: Seq<Seq<char>>)
    requires
        params.len() == args.len(),
        forall|j: int| 0 <= j < s.len() ==> !is_word_char(#[trigger] s[j]),
    ensures
        substitute_params(s, params, args) == s,
{
    lemma_keeps_plain_upto(s, params, args, params.len());
}

proof fn lemma_keeps_plain_upto(s: Seq<char>, params: Seq<Seq<char>>, args: Seq<Seq<char>>, m: nat)
    requires
        m <= params.len() == args.len(),
        forall|j: int| 0 <= j < s.len() ==> !is_word_char(#[trigger] s[j]),
    ensures
        substitute_upto(s, params, args, m) == s,
    decreases m,
{
    if m > 0 {
        lemma_keeps_plain_upto(s, params, args, (m - 1) as nat);
        if last_of_name(params, m - 1) {
            lemma_substitute_plain_scan(s, params[m - 1], args[m - 1], s.len());
            assert(s.take(s.len() as int) =~= s);
            let st = substitute_state(s, params[m - 1], args[m - 1], s.len());
            assert(flush_word(st.name, params[m - 1], args[m - 1]) =~= Seq::<char>::empty());
            assert(st.out + Seq::<char>::empty() =~= s);
        }
    }
}

/// Inside a definition, a line that is no directive joins the body letter
/// for letter, comment and indentation included; outside definitions such
/// a line is kept for the program as it was written.
pub proof fn lemma_definition_lines_kept(st: DefState, n: nat, line: Seq<char>)
    requires
        st.error is None,
        st.in_macro ==> st.current is Some,
        ({
            let low = lowercase(trim(cut_at(line, ';')));
            &&& !starts_with(low, ".macro"@)
            &&& !starts_with(low, ".def"@)
            &&& low != ".endmacro"@
            &&& low != ".end"@
        }),
    ensures
        st.in_macro ==> def_step(st, n, line).current == Some(
            MacroDef { body: st.current->0.body.push(line), ..st.current->0 },
        ) && def_step(st, n, line).output == st.output,
        !st.in_macro ==> def_step(st, n, line).output == st.output.push(line)
            && def_step(st, n, line).current == st.current,
        def_step(st, n, line).macros == st.macros,
        def_step(st, n, line).in_macro == st.in_macro,
        def_step(st, n, line).error is None,
{
}

/// A blank line, a comment line and a label line are no macro calls: they
/// stay as they were written and use up no label number.
pub proof fn lemma_plain_lines_stay(ms: Seq<MacroDef>, n: nat, line: Seq<char>, c: usize)
    requires
        ({
            let t = trim(cut_at(line, ';'));
            t.len() == 0 || t.last() == ':'
        }),
    ensures
        expand_line(ms, n, line, c) == Ok::<Expansion, Seq<char>>(
            Expansion { lines: seq![line], changed: false, counter: c },
        ),
{
}

} // verus!
