//! Core types for the 1# language.
//!
//! The 1# language uses only two symbols: `1` and `#`. Register contents are
//! words over these symbols; numbers are stored in "backwards binary", least
//! significant bit first, with `1` for a one bit and `#` for a zero bit.
use vstd::prelude::*;

use crate::text::{chars_of, decimal, push_decimal, push_str, string_of};

verus! {

/// A symbol in the 1# alphabet.
#[derive(Debug, Clone, Copy, PartialEq, Eq, Structural)]
pub enum Symbol {
    One,
    Hash,
}

/// A word is a sequence of symbols representing register contents.
pub type Word = Vec<Symbol>;

/// The character that writes a symbol.
pub open spec fn symbol_char(s: Symbol) -> char {
    match s {
        Symbol::One => '1',
        Symbol::Hash => '#',
    }
}

/// The symbol written by a character, if it writes one.
pub open spec fn char_symbol(c: char) -> Option<Symbol> {
    if c == '1' {
        Some(Symbol::One)
    } else if c == '#' {
        Some(Symbol::Hash)
    } else {
        None
    }
}

/// The characters that write the word `w`.
pub open spec fn word_text(w: Seq<Symbol>) -> Seq<char> {
    w.map_values(|s: Symbol| symbol_char(s))
}

/// The symbols written by the characters of `s`, every other character
/// dropped.
pub open spec fn text_word(s: Seq<char>) -> Seq<Symbol>
    decreases s.len(),
{
    if s.len() == 0 {
        Seq::empty()
    } else {
        let w = text_word(s.drop_last());
        match char_symbol(s.last()) {
            Some(x) => w.push(x),
            None => w,
        }
    }
}

/// The characters of `s` that write a symbol, in order.
pub open spec fn symbol_chars(s: Seq<char>) -> Seq<char>
    decreases s.len(),
{
    if s.len() == 0 {
        Seq::empty()
    } else if s.last() == '1' || s.last() == '#' {
        symbol_chars(s.drop_last()).push(s.last())
    } else {
        symbol_chars(s.drop_last())
    }
}

/// The value of a bit.
pub open spec fn bit(s: Symbol) -> nat {
    match s {
        Symbol::One => 1,
        Symbol::Hash => 0,
    }
}

/// The number that the word `w` denotes in backwards binary: the first symbol
/// is the least significant bit.
pub open spec fn value(w: Seq<Symbol>) -> nat
    decreases w.len(),
{
    if w.len() == 0 {
        0
    } else {
        bit(w[0]) + 2 * value(w.drop_first())
    }
}

/// `2` to the power `n`.
pub open spec fn two_pow(n: nat) -> nat
    decreases n,
{
    if n == 0 {
        1
    } else {
        2 * two_pow((n - 1) as nat)
    }
}

/// What `word_to_decimal` gives: the value of a word of at most 128 symbols.
pub open spec fn decimal_value(w: Seq<Symbol>) -> Option<u128> {
    if w.len() <= 128 {
        Some(value(w) as u128)
    } else {
        None
    }
}

/// What `format_word` gives.
pub open spec fn format_text(w: Seq<Symbol>) -> Seq<char> {
    if w.len() == 0 {
        "(empty) = 0"@
    } else {
        match decimal_value(w) {
            Some(d) => word_text(w) + " = "@ + decimal(d as nat),
            None => word_text(w) + " = (overflow)"@,
        }
    }
}

impl Symbol {
    /// Converts the symbol to its character representation.
    pub fn to_char(self) -> (c: char)
        ensures
            c == symbol_char(self),
    {
        match self {
            Symbol::One => '1',
            Symbol::Hash => '#',
        }
    }
}

/// The characters that write `word`.
pub fn word_chars(word: &Word) -> (v: Vec<char>)
    ensures
        v@ == word_text(word@),
{
    let mut v: Vec<char> = Vec::new();
    let mut i: usize = 0;
    while i < word.len()
        invariant
            i <= word@.len(),
            v@ == word_text(word@.take(i as int)),
        decreases word@.len() - i,
    {
        v.push(word[i].to_char());
        i = i + 1;
        assert(v@ =~= word_text(word@.take(i as int)));
    }
    assert(word@.take(word@.len() as int) =~= word@);
    v
}

/// Converts a word to its string representation.
pub fn word_to_string(word: &Word) -> (s: String)
    ensures
        s@ == word_text(word@),
{
    let v = word_chars(word);
    string_of(&v)
}

/// The value of a word is below `2` to the power of its length.
pub proof fn lemma_value_bound(w: Seq<Symbol>)
    ensures
        value(w) < two_pow(w.len()),
    decreases w.len(),
{
    if w.len() > 0 {
        lemma_value_bound(w.drop_first());
    }
}

proof fn lemma_two_pow_mono(a: nat, b: nat)
    requires
        a <= b,
    ensures
        two_pow(a) <= two_pow(b),
    decreases b,
{
    if a < b {
        lemma_two_pow_mono(a, (b - 1) as nat);
    }
}

proof fn lemma_two_pow_step8(n: nat)
    ensures
        two_pow(n + 8) == 256 * two_pow(n),
{
    reveal_with_fuel(two_pow, 9);
}

proof fn lemma_two_pow_127()
    ensures
        two_pow(127) == 0x8000_0000_0000_0000_0000_0000_0000_0000,
{
    reveal_with_fuel(two_pow, 8);
    assert(two_pow(7) == 128);
    lemma_two_pow_step8(7);
    assert(two_pow(15) == 32768);
    lemma_two_pow_step8(15);
    assert(two_pow(23) == 8388608);
    lemma_two_pow_step8(23);
    assert(two_pow(31) == 2147483648);
    lemma_two_pow_step8(31);
    assert(two_pow(39) == 549755813888);
    lemma_two_pow_step8(39);
    assert(two_pow(47) == 140737488355328);
    lemma_two_pow_step8(47);
    assert(two_pow(55) == 36028797018963968);
    lemma_two_pow_step8(55);
    assert(two_pow(63) == 9223372036854775808);
    lemma_two_pow_step8(63);
    assert(two_pow(71) == 2361183241434822606848);
    lemma_two_pow_step8(71);
    assert(two_pow(79) == 604462909807314587353088);
    lemma_two_pow_step8(79);
    assert(two_pow(87) == 154742504910672534362390528);
    lemma_two_pow_step8(87);
    assert(two_pow(95) == 39614081257132168796771975168);
    lemma_two_pow_step8(95);
    assert(two_pow(103) == 10141204801825835211973625643008);
    lemma_two_pow_step8(103);
    assert(two_pow(111) == 2596148429267413814265248164610048);
    lemma_two_pow_step8(111);
    assert(two_pow(119) == 664613997892457936451903530140172288);
    lemma_two_pow_step8(119);
    assert(two_pow(127) == 170141183460469231731687303715884105728);
}

/// Converts a backwards binary word to decimal.
///
/// In backwards binary: LSB is first, 1=1, #=0
/// Example: #11 = 011 reversed = 110 binary = 6 decimal
pub fn word_to_decimal(word: &Word) -> (r: Option<u128>)
    ensures
        r == decimal_value(word@),
{
    if word.len() > 128 {
        return None;
    }
    let n = word.len();
    let mut v: u128 = 0;
    let mut i: usize = n;
    while i > 0
        invariant
            i <= n == word@.len() <= 128,
            v == value(word@.subrange(i as int, n as int)),
        decreases i,
    {
        let ghost tail = word@.subrange(i as int, n as int);
        proof {
            lemma_value_bound(tail);
            lemma_two_pow_mono(tail.len(), 127);
            lemma_two_pow_127();
        }
        i = i - 1;
        let b: u128 = if word[i] == Symbol::One {
            1
        } else {
            0
        };
        v = 2 * v + b;
        assert(word@.subrange(i as int, n as int).drop_first() =~= tail);
    }
    assert(word@.subrange(0, n as int) =~= word@);
    Some(v)
}

/// Formats a word as both backwards binary and decimal.
pub fn format_word(word: &Word) -> (s: String)
    ensures
        s@ == format_text(word@),
{
    let mut v = word_chars(word);
    if v.len() == 0 {
        let e = chars_of("(empty) = 0");
        return string_of(&e);
    }
    match word_to_decimal(word) {
        Some(dec) => {
            push_str(&mut v, " = ");
            push_decimal(&mut v, dec);
        },
        None => {
            push_str(&mut v, " = (overflow)");
        },
    }
    string_of(&v)
}

/// Converts a string to a word, filtering only valid symbols.
pub fn string_to_word(s: &str) -> (w: Word)
    ensures
        w@ == text_word(s@),
{
    let v = chars_of(s);
    let mut w: Word = Vec::new();
    let mut i: usize = 0;
    while i < v.len()
        invariant
            i <= v@.len(),
            v@ == s@,
            w@ == text_word(v@.take(i as int)),
        decreases v@.len() - i,
    {
        let c = v[i];
        assert(v@.take(i + 1).drop_last() =~= v@.take(i as int));
        if c == '1' {
            w.push(Symbol::One);
        } else if c == '#' {
            w.push(Symbol::Hash);
        }
        i = i + 1;
    }
    assert(v@.take(v@.len() as int) =~= v@);
    w
}

/// Reading back the text of a word gives the word.
pub proof fn lemma_text_word_of_word_text(w: Seq<Symbol>)
    ensures
        text_word(word_text(w)) == w,
    decreases w.len(),
{
    if w.len() > 0 {
        lemma_text_word_of_word_text(w.drop_last());
        assert(word_text(w).drop_last() =~= word_text(w.drop_last()));
        assert(w.drop_last().push(w.last()) =~= w);
    } else {
        assert(word_text(w) =~= Seq::<char>::empty());
    }
}

/// Writing the word read from a text gives the symbol characters of the text,
/// in order.
pub proof fn lemma_word_text_of_text_word(s: Seq<char>)
    ensures
        word_text(text_word(s)) == symbol_chars(s),
    decreases s.len(),
{
    if s.len() > 0 {
        lemma_word_text_of_text_word(s.drop_last());
        if let Some(x) = char_symbol(s.last()) {
            assert(word_text(text_word(s)) =~= word_text(text_word(s.drop_last())).push(
                symbol_char(x),
            ));
        }
    } else {
        assert(symbol_chars(s) =~= Seq::<char>::empty());
        assert(word_text(text_word(s)) =~= Seq::<char>::empty());
    }
}

} // verus!
