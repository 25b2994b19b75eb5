//! Character-level text processing used by the parser and the assembler.
//!
//! Text is handled as sequences of `char`. Each operation comes with a spec
//! function over `Seq<char>` that states what it computes; the executable
//! versions are proved against them.
use vstd::prelude::*;

verus! {

// ---------------------------------------------------------------------------
// Conversions between `&str`, `String` and `Vec<char>`
// ---------------------------------------------------------------------------

/// Appends one character to a `String` (std's `String::push`).
///
/// Trusted: the contract claims that the string afterwards holds its old
/// characters followed by `c`, which is what std documents for `push`.
#[verifier::external_body]
fn string_push(s: &mut String, c: char)
    ensures
        final(s)@ == old(s)@.push(c),
{
    s.push(c);
}

/// Collects the characters of a string slice.
pub fn chars_of(s: &str) -> (v: Vec<char>)
    ensures
        v@ == s@,
{
    let mut v: Vec<char> = Vec::new();
    for c in it: s.chars()
        invariant
            v@ == it.seq().take(it.index() as int),
    {
        v.push(c);
    }
    v
}

/// Builds a `String` holding exactly the given characters.
pub fn string_of(v: &Vec<char>) -> (s: String)
    ensures
        s@ == v@,
{
    let mut s = String::new();
    let mut i: usize = 0;
    while i < v.len()
        invariant
            i <= v@.len(),
            s@ == v@.take(i as int),
        decreases v@.len() - i,
    {
        string_push(&mut s, v[i]);
        i = i + 1;
        assert(s@ =~= v@.take(i as int));
    }
    assert(v@.take(v@.len() as int) =~= v@);
    s
}

/// Appends the characters of `s` to `v`.
pub fn push_str(v: &mut Vec<char>, s: &str)
    ensures
        final(v)@ == old(v)@ + s@,
{
    let w = chars_of(s);
    append_chars(v, &w);
}

/// Appends the characters of `w` to `v`.
pub fn append_chars(v: &mut Vec<char>, w: &Vec<char>)
    ensures
        final(v)@ == old(v)@ + w@,
{
    let ghost start = v@;
    let mut i: usize = 0;
    while i < w.len()
        invariant
            i <= w@.len(),
            v@ == start + w@.take(i as int),
        decreases w@.len() - i,
    {
        v.push(w[i]);
        i = i + 1;
        assert(v@ =~= start + w@.take(i as int));
    }
    assert(w@.take(w@.len() as int) =~= w@);
}

/// Copies `v[lo..hi]`.
pub fn sub_chars(v: &Vec<char>, lo: usize, hi: usize) -> (r: Vec<char>)
    requires
        lo <= hi <= v@.len(),
    ensures
        r@ == v@.subrange(lo as int, hi as int),
{
    let mut r: Vec<char> = Vec::new();
    let mut i = lo;
    while i < hi
        invariant
            lo <= i <= hi <= v@.len(),
            r@ == v@.subrange(lo as int, i as int),
        decreases hi - i,
    {
        r.push(v[i]);
        i = i + 1;
        assert(r@ =~= v@.subrange(lo as int, i as int));
    }
    r
}

/// Whether `v` holds exactly the characters of `s`.
pub fn eq_str(v: &Vec<char>, s: &str) -> (b: bool)
    ensures
        b == (v@ == s@),
{
    let w = chars_of(s);
    eq_chars(v, &w)
}

/// Whether two character vectors are equal.
pub fn eq_chars(v: &Vec<char>, w: &Vec<char>) -> (b: bool)
    ensures
        b == (v@ == w@),
{
    if v.len() != w.len() {
        return false;
    }
    let mut i: usize = 0;
    while i < v.len()
        invariant
            i <= v@.len(),
            v@.len() == w@.len(),
            forall|j: int| 0 <= j < i ==> v@[j] == w@[j],
        decreases v@.len() - i,
    {
        if v[i] != w[i] {
            return false;
        }
        i = i + 1;
    }
    assert(v@ =~= w@);
    true
}

/// Clones a vector of characters.
pub fn clone_chars(v: &Vec<char>) -> (r: Vec<char>)
    ensures
        r@ == v@,
{
    sub_chars(v, 0, v.len())
}

// ---------------------------------------------------------------------------
// Whitespace, trimming
// ---------------------------------------------------------------------------

/// The Unicode `White_Space` property, which std's `char::is_whitespace` tests.
pub open spec fn is_ws(c: char) -> bool {
    let u = c as u32;
    ||| 0x09 <= u <= 0x0D
    ||| u == 0x20
    ||| u == 0x85
    ||| u == 0xA0
    ||| u == 0x1680
    ||| 0x2000 <= u <= 0x200A
    ||| u == 0x2028
    ||| u == 0x2029
    ||| u == 0x202F
    ||| u == 0x205F
    ||| u == 0x3000
}

/// Whether `c` is a whitespace character.
pub fn is_whitespace(c: char) -> (b: bool)
    ensures
        b == is_ws(c),
{
    let u = c as u32;
    (0x09 <= u && u <= 0x0D) || u == 0x20 || u == 0x85 || u == 0xA0 || u == 0x1680 || (0x2000
        <= u && u <= 0x200A) || u == 0x2028 || u == 0x2029 || u == 0x202F || u == 0x205F || u
        == 0x3000
}

/// `s` without its leading whitespace.
pub open spec fn trim_start(s: Seq<char>) -> Seq<char>
    decreases s.len(),
{
    if s.len() > 0 && is_ws(s[0]) {
        trim_start(s.drop_first())
    } else {
        s
    }
}

/// `s` without its trailing whitespace.
pub open spec fn trim_end(s: Seq<char>) -> Seq<char>
    decreases s.len(),
{
    if s.len() > 0 && is_ws(s.last()) {
        trim_end(s.drop_last())
    } else {
        s
    }
}

/// `s` without leading and trailing whitespace (std's `str::trim`).
pub open spec fn trim(s: Seq<char>) -> Seq<char> {
    trim_end(trim_start(s))
}

proof fn lemma_trim_start_skip(s: Seq<char>, i: int)
    requires
        0 <= i <= s.len(),
        forall|j: int| 0 <= j < i ==> is_ws(s[j]),
    ensures
        trim_start(s) == trim_start(s.subrange(i, s.len() as int)),
    decreases i,
{
    if i > 0 {
        lemma_trim_start_skip(s, i - 1);
        let t = s.subrange(i - 1, s.len() as int);
        assert(t[0] == s[i - 1]);
        assert(t.drop_first() =~= s.subrange(i, s.len() as int));
    } else {
        assert(s.subrange(0, s.len() as int) =~= s);
    }
}

proof fn lemma_trim_end_take(s: Seq<char>, k: int)
    requires
        0 <= k <= s.len(),
        forall|j: int| k <= j < s.len() ==> is_ws(s[j]),
    ensures
        trim_end(s) == trim_end(s.take(k)),
    decreases s.len() - k,
{
    if k < s.len() {
        lemma_trim_end_take(s, k + 1);
        let t = s.take(k + 1);
        assert(t.last() == s[k]);
        assert(t.drop_last() =~= s.take(k));
    } else {
        assert(s.take(k) =~= s);
    }
}

/// `v` without leading and trailing whitespace.
pub fn trim_chars(v: &Vec<char>) -> (r: Vec<char>)
    ensures
        r@ == trim(v@),
{
    let mut lo: usize = 0;
    while lo < v.len() && is_whitespace(v[lo])
        invariant
            lo <= v@.len(),
            forall|j: int| 0 <= j < lo ==> is_ws(v@[j]),
        decreases v@.len() - lo,
    {
        lo = lo + 1;
    }
    proof {
        lemma_trim_start_skip(v@, lo as int);
    }
    let ghost t = v@.subrange(lo as int, v@.len() as int);
    assert(t.len() == 0 || !is_ws(t[0]));
    assert(trim_start(v@) == t);
    let mut hi: usize = v.len();
    while hi > lo && is_whitespace(v[hi - 1])
        invariant
            lo <= hi <= v@.len(),
            forall|j: int| hi <= j < v@.len() ==> is_ws(v@[j]),
        decreases hi,
    {
        hi = hi - 1;
    }
    proof {
        let k = hi - lo;
        assert forall|j: int| k <= j < t.len() implies is_ws(t[j]) by {
            assert(t[j] == v@[lo + j]);
        }
        lemma_trim_end_take(t, k);
        let u = t.take(k);
        assert(u =~= v@.subrange(lo as int, hi as int));
        if u.len() > 0 {
            assert(u.last() == v@[hi - 1]);
        }
    }
    sub_chars(v, lo, hi)
}

// ---------------------------------------------------------------------------
// Cutting at a character
// ---------------------------------------------------------------------------

/// The longest prefix of `s` that does not contain `c`.
pub open spec fn cut_at(s: Seq<char>, c: char) -> Seq<char>
    decreases s.len(),
{
    if s.len() == 0 {
        s
    } else if s[0] == c {
        Seq::empty()
    } else {
        seq![s[0]] + cut_at(s.drop_first(), c)
    }
}

pub proof fn lemma_cut_at_take(s: Seq<char>, c: char, i: int)
    requires
        0 <= i <= s.len(),
        forall|j: int| 0 <= j < i ==> s[j] != c,
        i == s.len() || s[i] == c,
    ensures
        cut_at(s, c) == s.take(i),
    decreases i,
{
    if s.len() == 0 {
        assert(s.take(i) =~= s);
    } else if i == 0 {
        assert(s.take(0) =~= Seq::<char>::empty());
    } else {
        lemma_cut_at_take(s.drop_first(), c, i - 1);
        assert(seq![s[0]] + s.drop_first().take(i - 1) =~= s.take(i));
    }
}

/// Position of the first `c` in `v`, or its length.
pub fn find_char(v: &Vec<char>, c: char) -> (i: usize)
    ensures
        i <= v@.len(),
        cut_at(v@, c) == v@.take(i as int),
        i == v@.len() || v@[i as int] == c,
        forall|j: int| 0 <= j < i ==> v@[j] != c,
{
    let mut i: usize = 0;
    while i < v.len() && v[i] != c
        invariant
            i <= v@.len(),
            forall|j: int| 0 <= j < i ==> v@[j] != c,
        decreases v@.len() - i,
    {
        i = i + 1;
    }
    proof {
        lemma_cut_at_take(v@, c, i as int);
    }
    i
}

/// The part of `v` before the first `c`.
pub fn cut_chars(v: &Vec<char>, c: char) -> (r: Vec<char>)
    ensures
        r@ == cut_at(v@, c),
{
    let i = find_char(v, c);
    sub_chars(v, 0, i)
}

/// The texts held by a sequence of character vectors.
pub open spec fn texts(v: Seq<Vec<char>>) -> Seq<Seq<char>> {
    v.map_values(|x: Vec<char>| x@)
}

// ---------------------------------------------------------------------------
// Splitting into words and lines
// ---------------------------------------------------------------------------

/// State of a left-to-right split: the pieces finished so far and the piece
/// being read.
pub struct SplitState {
    pub done: Seq<Seq<char>>,
    pub cur: Seq<char>,
}

/// The split state after reading the first `k` characters of `s`, where
/// whitespace separates words.
pub open spec fn words_state(s: Seq<char>, k: nat) -> SplitState
    recommends
        k <= s.len(),
    decreases k,
{
    if k == 0 {
        SplitState { done: Seq::empty(), cur: Seq::empty() }
    } else {
        let st = words_state(s, (k - 1) as nat);
        let c = s[k - 1];
        if is_ws(c) {
            SplitState {
                done: if st.cur.len() > 0 {
                    st.done.push(st.cur)
                } else {
                    st.done
                },
                cur: Seq::empty(),
            }
        } else {
            SplitState { done: st.done, cur: st.cur.push(c) }
        }
    }
}

/// The whitespace-separated words of `s` (std's `str::split_whitespace`).
pub open spec fn words(s: Seq<char>) -> Seq<Seq<char>> {
    let st = words_state(s, s.len());
    if st.cur.len() > 0 {
        st.done.push(st.cur)
    } else {
        st.done
    }
}

/// Splits `v` at whitespace into its nonempty words.
pub fn split_words(v: &Vec<char>) -> (r: Vec<Vec<char>>)
    ensures
        texts(r@) == words(v@),
{
    let mut done: Vec<Vec<char>> = Vec::new();
    let mut cur: Vec<char> = Vec::new();
    let mut i: usize = 0;
    while i < v.len()
        invariant
            i <= v@.len(),
            texts(done@) == words_state(v@, i as nat).done,
            cur@ == words_state(v@, i as nat).cur,
        decreases v@.len() - i,
    {
        let c = v[i];
        if is_whitespace(c) {
            if cur.len() > 0 {
                let ghost old_done = texts(done@);
                done.push(cur);
                assert(texts(done@) =~= old_done.push(words_state(v@, i as nat).cur));
            }
            cur = Vec::new();
        } else {
            cur.push(c);
        }
        i = i + 1;
        assert(cur@ =~= words_state(v@, i as nat).cur);
    }
    if cur.len() > 0 {
        let ghost old_done = texts(done@);
        done.push(cur);
        assert(texts(done@) =~= old_done.push(words_state(v@, v@.len()).cur));
    }
    done
}

/// `l` without one trailing carriage return.
pub open spec fn strip_cr(l: Seq<char>) -> Seq<char> {
    if l.len() > 0 && l.last() == '\r' {
        l.drop_last()
    } else {
        l
    }
}

/// The split state after reading the first `k` characters of `s`, where a
/// newline ends a line.
pub open spec fn lines_state(s: Seq<char>, k: nat) -> SplitState
    recommends
        k <= s.len(),
    decreases k,
{
    if k == 0 {
        SplitState { done: Seq::empty(), cur: Seq::empty() }
    } else {
        let st = lines_state(s, (k - 1) as nat);
        let c = s[k - 1];
        if c == '\n' {
            SplitState { done: st.done.push(strip_cr(st.cur)), cur: Seq::empty() }
        } else {
            SplitState { done: st.done, cur: st.cur.push(c) }
        }
    }
}

/// The lines of `s` (std's `str::lines`): split at `\n`, a `\r` before the
/// `\n` removed, and no empty line after a final `\n`.
pub open spec fn lines(s: Seq<char>) -> Seq<Seq<char>> {
    let st = lines_state(s, s.len());
    if st.cur.len() > 0 {
        st.done.push(st.cur)
    } else {
        st.done
    }
}

/// Removes one trailing carriage return.
fn strip_cr_chars(v: Vec<char>) -> (r: Vec<char>)
    ensures
        r@ == strip_cr(v@),
{
    let mut v = v;
    if v.len() > 0 && v[v.len() - 1] == '\r' {
        v.pop();
    }
    v
}

/// Splits `v` into lines.
pub fn split_lines(v: &Vec<char>) -> (r: Vec<Vec<char>>)
    ensures
        texts(r@) == lines(v@),
{
    let mut done: Vec<Vec<char>> = Vec::new();
    let mut cur: Vec<char> = Vec::new();
    let mut i: usize = 0;
    while i < v.len()
        invariant
            i <= v@.len(),
            texts(done@) == lines_state(v@, i as nat).done,
            cur@ == lines_state(v@, i as nat).cur,
        decreases v@.len() - i,
    {
        let c = v[i];
        if c == '\n' {
            let ghost old_done = texts(done@);
            let ghost old_cur = cur@;
            let line = strip_cr_chars(cur);
            done.push(line);
            assert(texts(done@) =~= old_done.push(strip_cr(old_cur)));
            cur = Vec::new();
        } else {
            cur.push(c);
        }
        i = i + 1;
        assert(cur@ =~= lines_state(v@, i as nat).cur);
    }
    if cur.len() > 0 {
        let ghost old_done = texts(done@);
        done.push(cur);
        assert(texts(done@) =~= old_done.push(lines_state(v@, v@.len()).cur));
    }
    done
}

/// The lines `ls` joined with `sep` between each two of them.
pub open spec fn join(ls: Seq<Seq<char>>, sep: Seq<char>) -> Seq<char>
    decreases ls.len(),
{
    if ls.len() == 0 {
        Seq::empty()
    } else if ls.len() == 1 {
        ls[0]
    } else {
        join(ls.drop_last(), sep) + sep + ls.last()
    }
}

/// Joins the lines with `sep` between each two of them.
pub fn join_chars(ls: &Vec<Vec<char>>, sep: &str) -> (r: Vec<char>)
    ensures
        r@ == join(texts(ls@), sep@),
{
    let mut r: Vec<char> = Vec::new();
    let mut i: usize = 0;
    while i < ls.len()
        invariant
            i <= ls@.len(),
            r@ == join(texts(ls@).take(i as int), sep@),
        decreases ls@.len() - i,
    {
        let ghost before = r@;
        if i > 0 {
            push_str(&mut r, sep);
        }
        append_chars(&mut r, &ls[i]);
        proof {
            let t = texts(ls@).take(i + 1);
            assert(t.drop_last() =~= texts(ls@).take(i as int));
            assert(t.last() == ls[i as int]@);
            if i == 0 {
                assert(r@ =~= t[0]);
            }
        }
        i = i + 1;
    }
    assert(texts(ls@).take(ls@.len() as int) =~= texts(ls@));
    r
}

// ---------------------------------------------------------------------------
// Prefixes and suffixes
// ---------------------------------------------------------------------------

/// Whether `s` begins with `p`.
pub open spec fn starts_with(s: Seq<char>, p: Seq<char>) -> bool {
    p.len() <= s.len() && s.take(p.len() as int) == p
}

/// Whether `v` begins with the characters of `p`.
pub fn starts_with_str(v: &Vec<char>, p: &str) -> (b: bool)
    ensures
        b == starts_with(v@, p@),
{
    let w = chars_of(p);
    if w.len() > v.len() {
        return false;
    }
    let head = sub_chars(v, 0, w.len());
    eq_chars(&head, &w)
}

// ---------------------------------------------------------------------------
// Decimal numbers
// ---------------------------------------------------------------------------

/// The decimal digit for `d < 10`.
pub open spec fn digit_char(d: nat) -> char {
    if d == 0 {
        '0'
    } else if d == 1 {
        '1'
    } else if d == 2 {
        '2'
    } else if d == 3 {
        '3'
    } else if d == 4 {
        '4'
    } else if d == 5 {
        '5'
    } else if d == 6 {
        '6'
    } else if d == 7 {
        '7'
    } else if d == 8 {
        '8'
    } else {
        '9'
    }
}

/// The decimal notation of `n`, without leading zeros.
pub open spec fn decimal(n: nat) -> Seq<char>
    decreases n,
{
    if n < 10 {
        seq![digit_char(n)]
    } else {
        decimal(n / 10).push(digit_char(n % 10))
    }
}

fn digit_of(d: u128) -> (c: char)
    requires
        d < 10,
    ensures
        c == digit_char(d as nat),
{
    if d == 0 {
        '0'
    } else if d == 1 {
        '1'
    } else if d == 2 {
        '2'
    } else if d == 3 {
        '3'
    } else if d == 4 {
        '4'
    } else if d == 5 {
        '5'
    } else if d == 6 {
        '6'
    } else if d == 7 {
        '7'
    } else if d == 8 {
        '8'
    } else {
        '9'
    }
}

/// Appends the decimal notation of `n` to `v`.
pub fn push_decimal(v: &mut Vec<char>, n: u128)
    ensures
        final(v)@ == old(v)@ + decimal(n as nat),
    decreases n,
{
    if n >= 10 {
        push_decimal(v, n / 10);
    }
    v.push(digit_of(n % 10));
    assert(v@ =~= old(v)@ + decimal(n as nat));
}

/// Appends the decimal notation of `n` to `v`.
pub fn push_usize(v: &mut Vec<char>, n: usize)
    ensures
        final(v)@ == old(v)@ + decimal(n as nat),
{
    push_decimal(v, n as u128);
}

/// Whether `c` is an ASCII decimal digit.
pub open spec fn is_digit(c: char) -> bool {
    '0' <= c <= '9'
}

/// The value of the ASCII digit `c`.
pub open spec fn digit_value(c: char) -> nat {
    ((c as u32) - ('0' as u32)) as nat
}

/// The value of a string of decimal digits.
pub open spec fn digits_value(s: Seq<char>) -> nat
    decreases s.len(),
{
    if s.len() == 0 {
        0
    } else {
        digits_value(s.drop_last()) * 10 + digit_value(s.last())
    }
}

/// Whether every character of `s` is an ASCII digit.
pub open spec fn all_digits(s: Seq<char>) -> bool {
    forall|i: int| 0 <= i < s.len() ==> is_digit(#[trigger] s[i])
}

/// What std's `str::parse::<usize>` accepts: an optional `+`, then one or more
/// ASCII digits whose value fits in a `usize`.
pub open spec fn parse_usize(s: Seq<char>) -> Option<usize> {
    let d = if s.len() > 0 && s[0] == '+' {
        s.drop_first()
    } else {
        s
    };
    if d.len() > 0 && all_digits(d) && digits_value(d) <= usize::MAX {
        Some(digits_value(d) as usize)
    } else {
        None
    }
}

proof fn lemma_digit_char_value(d: nat)
    requires
        d < 10,
    ensures
        is_digit(digit_char(d)),
        digit_value(digit_char(d)) == d,
{
    assert('0' as u32 == 48 && '9' as u32 == 57);
    assert('1' as u32 == 49 && '2' as u32 == 50 && '3' as u32 == 51 && '4' as u32 == 52);
    assert('5' as u32 == 53 && '6' as u32 == 54 && '7' as u32 == 55 && '8' as u32 == 56);
}

/// The decimal notation of `n` consists of digits and reads back as `n`.
pub proof fn lemma_decimal_value(n: nat)
    ensures
        all_digits(decimal(n)),
        digits_value(decimal(n)) == n,
    decreases n,
{
    lemma_digit_char_value(n % 10);
    if n < 10 {
        assert(decimal(n).drop_last() =~= Seq::<char>::empty());
        assert(digits_value(Seq::<char>::empty()) == 0);
        assert(digits_value(decimal(n)) == digit_value(digit_char(n)));
    } else {
        lemma_decimal_value(n / 10);
        let d = decimal(n);
        assert(d.drop_last() =~= decimal(n / 10));
        assert(d.last() == digit_char(n % 10));
        assert(digits_value(d) == (n / 10) * 10 + n % 10);
        assert forall|i: int| 0 <= i < d.len() implies is_digit(#[trigger] d[i]) by {
            if i < d.len() - 1 {
                assert(d[i] == decimal(n / 10)[i]);
            }
        }
    }
}

proof fn lemma_digits_value_prefix(s: Seq<char>, i: int)
    requires
        0 <= i <= s.len(),
    ensures
        digits_value(s.take(i)) <= digits_value(s),
    decreases s.len(),
{
    if i < s.len() {
        assert(s.drop_last().take(i) =~= s.take(i));
        lemma_digits_value_prefix(s.drop_last(), i);
    } else {
        assert(s.take(i) =~= s);
    }
}

/// Parses a decimal number the way std's `str::parse::<usize>` does.
pub fn parse_usize_chars(v: &Vec<char>) -> (r: Option<usize>)
    ensures
        r == parse_usize(v@),
{
    let ghost d = if v@.len() > 0 && v@[0] == '+' {
        v@.drop_first()
    } else {
        v@
    };
    let start: usize = if v.len() > 0 && v[0] == '+' {
        1
    } else {
        0
    };
    assert(d =~= v@.subrange(start as int, v@.len() as int));
    if start >= v.len() {
        return None;
    }
    let mut value: usize = 0;
    let mut i: usize = start;
    while i < v.len()
        invariant
            start <= i <= v@.len(),
            d == (if v@.len() > 0 && v@[0] == '+' {
                v@.drop_first()
            } else {
                v@
            }),
            d =~= v@.subrange(start as int, v@.len() as int),
            forall|j: int| 0 <= j < i - start ==> is_digit(#[trigger] d[j]),
            value == digits_value(d.take(i - start)),
        decreases v@.len() - i,
    {
        let c = v[i];
        if !('0' <= c && c <= '9') {
            assert(!is_digit(d[i - start]));
            assert(!all_digits(d));
            return None;
        }
        let dv = (c as u32 - '0' as u32) as usize;
        proof {
            let k = i - start;
            assert(d.take(k + 1).drop_last() =~= d.take(k));
            assert(d.take(k + 1).last() == c);
        }
        match value.checked_mul(10) {
            Some(m) => match m.checked_add(dv) {
                Some(n) => {
                    value = n;
                },
                None => {
                    proof {
                        let k = i - start;
                        assert(digit_value(c) == dv);
                        assert(digits_value(d.take(k + 1)) == digits_value(d.take(k)) * 10
                            + digit_value(c));
                        lemma_digits_value_prefix(d, k + 1);
                    }
                    return None;
                },
            },
            None => {
                proof {
                    lemma_digits_value_prefix(d, i - start + 1);
                }
                return None;
            },
        }
        i = i + 1;
    }
    assert(d.take(i - start) =~= d);
    Some(value)
}

// ---------------------------------------------------------------------------
// Unicode case mapping and character classes
// ---------------------------------------------------------------------------

/// The result of std's `str::to_lowercase` on the characters `s`.
pub uninterp spec fn lowercase(s: Seq<char>) -> Seq<char>;

/// Whether every character of `s` is ASCII.
pub open spec fn is_ascii_text(s: Seq<char>) -> bool {
    forall|i: int| 0 <= i < s.len() ==> (#[trigger] s[i] as u32) < 128
}

/// The ASCII lowercase of `c`: `A`..`Z` become `a`..`z`, any other
/// character stays as it is.
pub open spec fn ascii_lower(c: char) -> char {
    if 'A' <= c <= 'Z' {
        ((c as u32) + 32) as char
    } else {
        c
    }
}

/// std's `str::to_lowercase`.
///
/// Trusted: the contract names the result, which std computes by the Unicode
/// lowercase mapping of the text alone, and states the part of that mapping
/// that std documents for ASCII text: `A`..`Z` become `a`..`z` and every
/// other ASCII character stays as it is. Of other text it says nothing more.
#[verifier::external_body]
fn str_to_lowercase(s: &str) -> (r: String)
    ensures
        r@ == lowercase(s@),
        is_ascii_text(s@) ==> r@ == s@.map_values(|c: char| ascii_lower(c)),
{
    s.to_lowercase()
}

/// The lowercase form of `v`.
pub fn lowercase_chars(v: &Vec<char>) -> (r: Vec<char>)
    ensures
        r@ == lowercase(v@),
        is_ascii_text(v@) ==> r@ == v@.map_values(|c: char| ascii_lower(c)),
{
    let s = string_of(v);
    let l = str_to_lowercase(s.as_str());
    chars_of(l.as_str())
}

/// Whether std's `char::is_alphanumeric` holds of `c`.
pub uninterp spec fn alphanumeric(c: char) -> bool;

/// std's `char::is_alphanumeric`.
///
/// Trusted: the contract names the result, which std computes from the
/// Unicode `Alphabetic` and `Numeric` properties of `c` alone, and states what
/// std documents for ASCII characters: exactly the letters and digits are
/// alphanumeric. Of other characters it says nothing more.
#[verifier::external_body]
pub(crate) fn is_alphanumeric(c: char) -> (b: bool)
    ensures
        b == alphanumeric(c),
        (c as u32) < 128 ==> b == (('a' <= c <= 'z') || ('A' <= c <= 'Z') || ('0' <= c <= '9')),
{
    c.is_alphanumeric()
}

// ---------------------------------------------------------------------------
// Splitting joined text
// ---------------------------------------------------------------------------

proof fn lemma_lines_state_prefix(s: Seq<char>, t: Seq<char>, k: nat)
    requires
        k <= s.len(),
        k <= t.len(),
        s.take(k as int) == t.take(k as int),
    ensures
        lines_state(s, k) == lines_state(t, k),
    decreases k,
{
    if k > 0 {
        assert(s.take(k - 1) =~= s.take(k as int).take(k - 1));
        assert(t.take(k - 1) =~= t.take(k as int).take(k - 1));
        assert(s[k - 1] == s.take(k as int)[k - 1]);
        assert(t[k - 1] == t.take(k as int)[k - 1]);
        lemma_lines_state_prefix(s, t, (k - 1) as nat);
    }
}

proof fn lemma_lines_state_run(p: Seq<char>, q: Seq<char>, j: nat)
    requires
        j <= q.len(),
        forall|i: int| 0 <= i < q.len() ==> q[i] != '\n',
    ensures
        lines_state(p + q, p.len() + j) == (SplitState {
            done: lines_state(p + q, p.len()).done,
            cur: lines_state(p + q, p.len()).cur + q.take(j as int),
        }),
    decreases j,
{
    if j == 0 {
        assert(lines_state(p + q, p.len()).cur + q.take(0) =~= lines_state(p + q, p.len()).cur);
        assert(lines_state(p + q, p.len() + j) == lines_state(p + q, p.len()));
    } else {
        lemma_lines_state_run(p, q, (j - 1) as nat);
        assert((p + q)[p.len() + j - 1] == q[j - 1]);
        let st = lines_state(p + q, (p.len() + j - 1) as nat);
        assert(st == lines_state(p + q, p.len() + (j - 1) as nat));
        assert(lines_state(p + q, p.len() + j) == SplitState { done: st.done, cur: st.cur.push(q[j - 1]) });
        assert(st.cur.push(q[j - 1]) =~= lines_state(p + q, p.len()).cur + q.take(j as int));
        assert(lines_state(p + q, p.len()).cur + q.take(j - 1) + seq![q[j - 1]] =~= lines_state(
            p + q,
            p.len(),
        ).cur + q.take(j as int));
    }
}

/// Whether every line of `ls` is non-empty, holds no newline, and does not
/// end with a carriage return.
pub open spec fn plain_lines(ls: Seq<Seq<char>>) -> bool {
    forall|i: int|
        0 <= i < ls.len() ==> #[trigger] ls[i].len() > 0 && ls[i].last() != '\r' && (forall|
            j: int,
        | 0 <= j < ls[i].len() ==> ls[i][j] != '\n')
}

proof fn lemma_lines_join_state(ls: Seq<Seq<char>>)
    requires
        ls.len() > 0,
        plain_lines(ls),
    ensures
        lines_state(join(ls, "\n"@), join(ls, "\n"@).len()) == (SplitState {
            done: ls.drop_last(),
            cur: ls.last(),
        }),
    decreases ls.len(),
{
    let x = join(ls, "\n"@);
    assert(ls[ls.len() - 1].len() > 0);
    if ls.len() == 1 {
        lemma_lines_state_run(Seq::empty(), ls[0], ls[0].len());
        assert(Seq::<char>::empty() + ls[0] =~= ls[0]);
        assert(ls[0].take(ls[0].len() as int) =~= ls[0]);
        assert(ls.drop_last() =~= Seq::<Seq<char>>::empty());
        assert(Seq::<char>::empty() + ls[0] =~= ls[0]);
    } else {
        let dl = ls.drop_last();
        assert forall|i: int| 0 <= i < dl.len() implies #[trigger] dl[i].len() > 0 && dl[i].last()
            != '\r' && (forall|j: int| 0 <= j < dl[i].len() ==> dl[i][j] != '\n') by {
            assert(dl[i] == ls[i]);
        }
        lemma_lines_join_state(dl);
        let p = join(dl, "\n"@);
        reveal_strlit("\n");
        let p1 = p + "\n"@;
        assert(x =~= p1 + ls.last());
        assert(x.take(p.len() as int) =~= p.take(p.len() as int));
        lemma_lines_state_prefix(x, p, p.len());
        assert(x[p.len() as int] == '\n');
        assert(dl.last().len() > 0 && dl.last().last() != '\r');
        assert(dl.drop_last().push(strip_cr(dl.last())) =~= dl);
        assert(lines_state(x, p1.len()) == SplitState { done: dl, cur: Seq::empty() });
        lemma_lines_state_run(p1, ls.last(), ls.last().len());
        assert(Seq::<char>::empty() + ls.last().take(ls.last().len() as int) =~= ls.last());
    }
}

/// The lines of non-empty lines joined with newlines are those lines.
pub proof fn lemma_lines_join(ls: Seq<Seq<char>>)
    requires
        ls.len() > 0,
        plain_lines(ls),
    ensures
        lines(join(ls, "\n"@)) == ls,
{
    lemma_lines_join_state(ls);
    assert(ls[ls.len() - 1].len() > 0);
    assert(ls.drop_last().push(ls.last()) =~= ls);
}

proof fn lemma_words_state_prefix(s: Seq<char>, t: Seq<char>, k: nat)
    requires
        k <= s.len(),
        k <= t.len(),
        s.take(k as int) == t.take(k as int),
    ensures
        words_state(s, k) == words_state(t, k),
    decreases k,
{
    if k > 0 {
        assert(s.take(k - 1) =~= s.take(k as int).take(k - 1));
        assert(t.take(k - 1) =~= t.take(k as int).take(k - 1));
        assert(s[k - 1] == s.take(k as int)[k - 1]);
        assert(t[k - 1] == t.take(k as int)[k - 1]);
        lemma_words_state_prefix(s, t, (k - 1) as nat);
    }
}

proof fn lemma_words_state_run(p: Seq<char>, q: Seq<char>, j: nat)
    requires
        j <= q.len(),
        forall|i: int| 0 <= i < q.len() ==> !is_ws(q[i]),
    ensures
        words_state(p + q, p.len() + j) == (SplitState {
            done: words_state(p + q, p.len()).done,
            cur: words_state(p + q, p.len()).cur + q.take(j as int),
        }),
    decreases j,
{
    if j == 0 {
        assert(words_state(p + q, p.len()).cur + q.take(0) =~= words_state(p + q, p.len()).cur);
        assert(words_state(p + q, p.len() + j) == words_state(p + q, p.len()));
    } else {
        lemma_words_state_run(p, q, (j - 1) as nat);
        assert((p + q)[p.len() + j - 1] == q[j - 1]);
        let st = words_state(p + q, (p.len() + j - 1) as nat);
        assert(st == words_state(p + q, p.len() + (j - 1) as nat));
        assert(words_state(p + q, p.len() + j) == SplitState { done: st.done, cur: st.cur.push(q[j - 1]) });
        assert(st.cur.push(q[j - 1]) =~= words_state(p + q, p.len()).cur + q.take(j as int));
        assert(words_state(p + q, p.len()).cur + q.take(j - 1) + seq![q[j - 1]] =~= words_state(
            p + q,
            p.len(),
        ).cur + q.take(j as int));
    }
}

/// Whether `w` is a non-empty word without whitespace.
pub open spec fn plain_word(w: Seq<char>) -> bool {
    w.len() > 0 && forall|j: int| 0 <= j < w.len() ==> !is_ws(#[trigger] w[j])
}

proof fn lemma_words_join_state(ws: Seq<Seq<char>>)
    requires
        ws.len() > 0,
        forall|i: int| 0 <= i < ws.len() ==> plain_word(#[trigger] ws[i]),
    ensures
        words_state(join(ws, " "@), join(ws, " "@).len()) == (SplitState {
            done: ws.drop_last(),
            cur: ws.last(),
        }),
    decreases ws.len(),
{
    let x = join(ws, " "@);
    assert(plain_word(ws[ws.len() - 1]));
    if ws.len() == 1 {
        assert(plain_word(ws[0]));
        lemma_words_state_run(Seq::empty(), ws[0], ws[0].len());
        assert(Seq::<char>::empty() + ws[0] =~= ws[0]);
        assert(ws[0].take(ws[0].len() as int) =~= ws[0]);
        assert(ws.drop_last() =~= Seq::<Seq<char>>::empty());
    } else {
        let dl = ws.drop_last();
        assert forall|i: int| 0 <= i < dl.len() implies plain_word(#[trigger] dl[i]) by {
            assert(dl[i] == ws[i]);
        }
        lemma_words_join_state(dl);
        let p = join(dl, " "@);
        reveal_strlit(" ");
        let p1 = p + " "@;
        assert(x =~= p1 + ws.last());
        assert(x.take(p.len() as int) =~= p.take(p.len() as int));
        lemma_words_state_prefix(x, p, p.len());
        assert(x[p.len() as int] == ' ');
        assert(is_ws(' '));
        assert(plain_word(dl[dl.len() - 1]));
        assert(dl.drop_last().push(dl.last()) =~= dl);
        assert(words_state(x, p1.len()) == SplitState { done: dl, cur: Seq::empty() });
        lemma_words_state_run(p1, ws.last(), ws.last().len());
        assert(Seq::<char>::empty() + ws.last().take(ws.last().len() as int) =~= ws.last());
    }
}

/// The words of non-empty words joined with single spaces are those words.
pub proof fn lemma_words_join(ws: Seq<Seq<char>>)
    requires
        ws.len() > 0,
        forall|i: int| 0 <= i < ws.len() ==> plain_word(#[trigger] ws[i]),
    ensures
        words(join(ws, " "@)) == ws,
{
    lemma_words_join_state(ws);
    assert(plain_word(ws[ws.len() - 1]));
    assert(ws.drop_last().push(ws.last()) =~= ws);
}

/// Cutting at `c` leaves a text without `c` as it is, and trimming leaves
/// one that neither starts nor ends with whitespace as it is; leading
/// whitespace is dropped.
pub proof fn lemma_trim_cut_plain(sp: Seq<char>, x: Seq<char>, c: char)
    requires
        forall|j: int| 0 <= j < sp.len() ==> is_ws(#[trigger] sp[j]) && sp[j] != c,
        forall|j: int| 0 <= j < x.len() ==> #[trigger] x[j] != c,
        x.len() > 0,
        !is_ws(x[0]),
        !is_ws(x.last()),
    ensures
        cut_at(sp + x, c) == sp + x,
        trim(cut_at(sp + x, c)) == x,
{
    let s = sp + x;
    lemma_cut_at_take(s, c, s.len() as int);
    assert(s.take(s.len() as int) =~= s);
    lemma_trim_start_skip(s, sp.len() as int);
    assert(s.subrange(sp.len() as int, s.len() as int) =~= x);
    assert(trim_start(x) == x);
    lemma_trim_end_take(x, x.len() as int);
    assert(x.take(x.len() as int) =~= x);
}

/// A text that neither begins nor ends with whitespace is its own trim.
pub proof fn lemma_trim_plain(w: Seq<char>)
    requires
        w.len() > 0,
        !is_ws(w[0]),
        !is_ws(w.last()),
    ensures
        trim(w) == w,
{
}

/// A space added at the end changes nothing of the trimmed text.
pub proof fn lemma_trim_space(s: Seq<char>)
    ensures
        trim(s + " "@) == trim(s),
    decreases s.len(),
{
    reveal_strlit(" ");
    let x = s + " "@;
    if s.len() == 0 {
        assert(x =~= " "@);
        assert(is_ws(x[0]));
        assert(x.drop_first() =~= Seq::<char>::empty());
        assert(trim_start(x) == trim_start(x.drop_first()));
    } else if is_ws(s[0]) {
        assert(x[0] == s[0]);
        assert(x.drop_first() =~= s.drop_first() + " "@);
        lemma_trim_space(s.drop_first());
    } else {
        assert(x[0] == s[0]);
        assert(trim_start(x) == x);
        assert(trim_start(s) == s);
        assert(is_ws(x.last()));
        assert(x.drop_last() =~= s);
    }
}

/// Trimming the end keeps a prefix, and keeps the first character when it
/// is no whitespace.
proof fn lemma_trim_end_prefix(v: Seq<char>)
    ensures
        trim_end(v).len() <= v.len(),
        forall|j: int| 0 <= j < trim_end(v).len() ==> #[trigger] trim_end(v)[j] == v[j],
        v.len() > 0 && !is_ws(v[0]) ==> trim_end(v).len() > 0,
    decreases v.len(),
{
    if v.len() > 0 && is_ws(v.last()) {
        let d = v.drop_last();
        lemma_trim_end_prefix(d);
        if v.len() > 0 && !is_ws(v[0]) {
            assert(v.len() > 1) by {
                if v.len() == 1 {
                    assert(v.last() == v[0]);
                }
            }
            assert(d[0] == v[0]);
        }
    }
}

/// Whitespace followed by a text that begins with no whitespace trims to a
/// text that begins with that text's first character.
pub proof fn lemma_trim_first(sp: Seq<char>, v: Seq<char>)
    requires
        forall|j: int| 0 <= j < sp.len() ==> is_ws(#[trigger] sp[j]),
        v.len() > 0,
        !is_ws(v[0]),
    ensures
        trim(sp + v).len() > 0,
        trim(sp + v)[0] == v[0],
{
    let x = sp + v;
    assert forall|j: int| 0 <= j < sp.len() implies is_ws(x[j]) by {
        assert(x[j] == sp[j]);
    }
    lemma_trim_start_skip(x, sp.len() as int);
    assert(x.subrange(sp.len() as int, x.len() as int) =~= v);
    assert(trim_start(v) == v);
    lemma_trim_end_prefix(v);
}

} // verus!
