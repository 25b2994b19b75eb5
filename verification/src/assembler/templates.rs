//! The built-in macros of the assembler, as text templates.
//!
//! A template is the text of the lines that a macro call expands to. In it,
//! `{L}` stands for the label made for the call, and `{1}`, `{2}`, ... for
//! the call's arguments.
use vstd::prelude::*;

use crate::text::eq_str;

verus! {

/// A built-in macro: how many arguments it takes, the prefix of the label
/// made for each call (when it makes one), the usage text of its arity
/// error, and its template.
pub struct Builtin {
    pub arity: nat,
    pub label_prefix: Option<Seq<char>>,
    pub usage: Seq<char>,
    pub body: Seq<char>,
}

/// A built-in macro.
pub struct BuiltinMacro {
    pub arity: usize,
    pub label_prefix: Option<&'static str>,
    pub usage: &'static str,
    pub body: &'static str,
}

impl View for BuiltinMacro {
    type V = Builtin;

    open spec fn view(&self) -> Builtin {
        Builtin {
            arity: self.arity as nat,
            label_prefix: match self.label_prefix {
                Some(p) => Some(p@),
                None => None,
            },
            usage: self.usage@,
            body: self.body@,
        }
    }
}

/// Usage of `clear`.
pub const CLEAR_USAGE: &'static str = "'clear' expects 1 argument: clear <reg>";

/// `clear`: Empties a register.
pub const CLEAR_BODY: &'static str = "{L}:
    case {1}
    goto {L}_done
    goto {L}
    goto {L}
{L}_done:";

/// Usage of `move`.
pub const MOVE_USAGE: &'static str = "'move' expects 2 arguments: move <src> <dst>";

/// `move`: Moves the contents of one register to the end of another, emptying the first.
pub const MOVE_BODY: &'static str = "{L}:
    case {1}
    goto {L}_done
    goto {L}_one
    goto {L}_hash
{L}_one:
    add 1 {2}
    goto {L}
{L}_hash:
    add # {2}
    goto {L}
{L}_done:";

/// Usage of `copy`.
pub const COPY_USAGE: &'static str = "'copy' expects 3 arguments: copy <src> <dst> <tmp>";

/// `copy`: Copies a register to the end of another through a temporary register, keeping the source.
pub const COPY_BODY: &'static str = "{L}:
    case {1}
    goto {L}_restore
    goto {L}_one
    goto {L}_hash
{L}_one:
    add 1 {3}
    goto {L}
{L}_hash:
    add # {3}
    goto {L}
{L}_restore:
    case {3}
    goto {L}_done
    goto {L}_r1
    goto {L}_rh
{L}_r1:
    add 1 {1}
    add 1 {2}
    goto {L}_restore
{L}_rh:
    add # {1}
    add # {2}
    goto {L}_restore
{L}_done:";

/// Usage of `pop`.
pub const POP_USAGE: &'static str = "'pop' expects 1 argument: pop <reg>";

/// `pop`: Removes the first symbol of a register.
pub const POP_BODY: &'static str = "{L}:
    case {1}
    goto {L}_done
    goto {L}_done
    goto {L}_done
{L}_done:";

/// Usage of `swap`.
pub const SWAP_USAGE: &'static str = "'swap' expects 3 arguments: swap <a> <b> <tmp>";

/// `swap`: Swaps two registers through a temporary register.
pub const SWAP_BODY: &'static str = "    move {1} {3}
    move {2} {1}
    move {3} {2}";

/// Usage of `shift_left`.
pub const SHIFT_LEFT_USAGE: &'static str = "'shift_left' expects 2 arguments: shift_left <reg> <tmp>";

/// `shift_left`: Prepends `#` to a register (multiplies by two).
pub const SHIFT_LEFT_BODY: &'static str = "{L}:
    case {1}
    goto {L}_ins
    goto {L}_one
    goto {L}_hash
{L}_one:
    add 1 {2}
    goto {L}
{L}_hash:
    add # {2}
    goto {L}
{L}_ins:
    add # {1}
{L}_rest:
    case {2}
    goto {L}_done
    goto {L}_r1
    goto {L}_rh
{L}_r1:
    add 1 {1}
    goto {L}_rest
{L}_rh:
    add # {1}
    goto {L}_rest
{L}_done:";

/// Usage of `shift_right`.
pub const SHIFT_RIGHT_USAGE: &'static str = "'shift_right' expects 1 argument: shift_right <reg>";

/// `shift_right`: Removes the first symbol of a register (divides by two).
pub const SHIFT_RIGHT_BODY: &'static str = "    pop {1}";

/// Usage of `increment`.
pub const INCREMENT_USAGE: &'static str = "'increment' expects 2 arguments: increment <reg> <tmp>";

/// `increment`: Adds one to a backwards binary number.
pub const INCREMENT_BODY: &'static str = "{L}:
    case {1}
    goto {L}_add1
    goto {L}_one
    goto {L}_hash
{L}_one:
    add # {2}
    goto {L}
{L}_hash:
    add 1 {2}
    goto {L}_copy
{L}_add1:
    add 1 {2}
{L}_copy:
    case {1}
    goto {L}_rest
    goto {L}_c1
    goto {L}_ch
{L}_c1:
    add 1 {2}
    goto {L}_copy
{L}_ch:
    add # {2}
    goto {L}_copy
{L}_rest:
    case {2}
    goto {L}_done
    goto {L}_r1
    goto {L}_rh
{L}_r1:
    add 1 {1}
    goto {L}_rest
{L}_rh:
    add # {1}
    goto {L}_rest
{L}_done:";

/// Usage of `decrement`.
pub const DECREMENT_USAGE: &'static str = "'decrement' expects 2 arguments: decrement <reg> <tmp>";

/// `decrement`: Subtracts one from a backwards binary number.
pub const DECREMENT_BODY: &'static str = "{L}:
    case {1}
    goto {L}_rest
    goto {L}_one
    goto {L}_hash
{L}_one:
    add # {2}
    goto {L}_copy
{L}_hash:
    add 1 {2}
    goto {L}
{L}_copy:
    case {1}
    goto {L}_rest
    goto {L}_c1
    goto {L}_ch
{L}_c1:
    add 1 {2}
    goto {L}_copy
{L}_ch:
    add # {2}
    goto {L}_copy
{L}_rest:
    case {2}
    goto {L}_done
    goto {L}_r1
    goto {L}_rh
{L}_r1:
    add 1 {1}
    goto {L}_rest
{L}_rh:
    add # {1}
    goto {L}_rest
{L}_done:";

/// Usage of `is_nonzero`.
pub const IS_NONZERO_USAGE: &'static str = "'is_nonzero' expects 5 arguments: is_nonzero <reg> <tmp1> <tmp2> <nonzero> <zero>";

/// `is_nonzero`: Jumps to one label when a register holds a `1`, to another when it does not.
pub const IS_NONZERO_BODY: &'static str = "{L}:
    case {1}
    goto {L}_restore
    goto {L}_one
    goto {L}_hash
{L}_one:
    add 1 {2}
    add 1 {3}
    goto {L}
{L}_hash:
    add # {2}
    goto {L}
{L}_restore:
    case {2}
    goto {L}_check
    goto {L}_r1
    goto {L}_rh
{L}_r1:
    add 1 {1}
    goto {L}_restore
{L}_rh:
    add # {1}
    goto {L}_restore
{L}_check:
    case {3}
    goto {5}
    goto {L}_drain
    goto {L}_drain
{L}_drain:
    case {3}
    goto {4}
    goto {L}_drain
    goto {L}_drain";

/// Usage of `bin_add`.
pub const BIN_ADD_USAGE: &'static str = "'bin_add' expects 5 arguments: bin_add <src> <dst> <tmp1> <tmp2> <carry>";

/// `bin_add`: Adds one backwards binary number to another.
pub const BIN_ADD_BODY: &'static str = "{L}_mvdst:
    case {2}
    goto {L}_loop
    goto {L}_mv1
    goto {L}_mvh
{L}_mv1:
    add 1 {3}
    goto {L}_mvdst
{L}_mvh:
    add # {3}
    goto {L}_mvdst
{L}_loop:
    case {3}
    goto {L}_t1e
    goto {L}_t1_1
    goto {L}_t1_h
{L}_t1e:
    case {1}
    goto {L}_both_e
    goto {L}_01
    goto {L}_00
{L}_both_e:
    case {5}
    goto {L}_done
    goto {L}_addcarry
    goto {L}_addcarry
{L}_addcarry:
    add 1 {2}
    goto {L}_done
{L}_01:
    case {5}
    goto {L}_01_c0
    goto {L}_01_c1
    goto {L}_01_c1
{L}_01_c0:
    add 1 {2}
    goto {L}_loop
{L}_01_c1:
    add # {2}
    add 1 {5}
    goto {L}_loop
{L}_00:
    case {5}
    goto {L}_00_c0
    goto {L}_00_c1
    goto {L}_00_c1
{L}_00_c0:
    add # {2}
    goto {L}_loop
{L}_00_c1:
    add 1 {2}
    goto {L}_loop
{L}_t1_1:
    case {1}
    goto {L}_10
    goto {L}_11
    goto {L}_1h
{L}_10:
    case {5}
    goto {L}_10_c0
    goto {L}_10_c1
    goto {L}_10_c1
{L}_10_c0:
    add 1 {2}
    goto {L}_loop
{L}_10_c1:
    add # {2}
    add 1 {5}
    goto {L}_loop
{L}_11:
    case {5}
    goto {L}_11_c0
    goto {L}_11_c1
    goto {L}_11_c1
{L}_11_c0:
    add # {2}
    add 1 {5}
    goto {L}_loop
{L}_11_c1:
    add 1 {2}
    add 1 {5}
    goto {L}_loop
{L}_1h:
    case {5}
    goto {L}_1h_c0
    goto {L}_1h_c1
    goto {L}_1h_c1
{L}_1h_c0:
    add 1 {2}
    goto {L}_loop
{L}_1h_c1:
    add # {2}
    add 1 {5}
    goto {L}_loop
{L}_t1_h:
    case {1}
    goto {L}_h0
    goto {L}_h1
    goto {L}_hh
{L}_h0:
    case {5}
    goto {L}_h0_c0
    goto {L}_h0_c1
    goto {L}_h0_c1
{L}_h0_c0:
    add # {2}
    goto {L}_loop
{L}_h0_c1:
    add 1 {2}
    goto {L}_loop
{L}_h1:
    case {5}
    goto {L}_h1_c0
    goto {L}_h1_c1
    goto {L}_h1_c1
{L}_h1_c0:
    add 1 {2}
    goto {L}_loop
{L}_h1_c1:
    add # {2}
    add 1 {5}
    goto {L}_loop
{L}_hh:
    case {5}
    goto {L}_hh_c0
    goto {L}_hh_c1
    goto {L}_hh_c1
{L}_hh_c0:
    add # {2}
    goto {L}_loop
{L}_hh_c1:
    add 1 {2}
    goto {L}_loop
{L}_done:";

/// Usage of `bin_sub`.
pub const BIN_SUB_USAGE: &'static str = "'bin_sub' expects 5 arguments: bin_sub <src> <dst> <tmp1> <tmp2> <borrow>";

/// `bin_sub`: Subtracts one backwards binary number from another.
pub const BIN_SUB_BODY: &'static str = "{L}_mvdst:
    case {2}
    goto {L}_loop
    goto {L}_mv1
    goto {L}_mvh
{L}_mv1:
    add 1 {3}
    goto {L}_mvdst
{L}_mvh:
    add # {3}
    goto {L}_mvdst
{L}_loop:
    case {3}
    goto {L}_t1e
    goto {L}_t1_1
    goto {L}_t1_h
{L}_t1e:
    case {1}
    goto {L}_both_e
    goto {L}_0_1
    goto {L}_0_0
{L}_both_e:
    clear {5}
    goto {L}_done
{L}_0_1:
    case {5}
    goto {L}_0_1_b0
    goto {L}_0_1_b1
    goto {L}_0_1_b1
{L}_0_1_b0:
    add 1 {2}
    add 1 {5}
    goto {L}_loop
{L}_0_1_b1:
    add # {2}
    add 1 {5}
    goto {L}_loop
{L}_0_0:
    case {5}
    goto {L}_0_0_b0
    goto {L}_0_0_b1
    goto {L}_0_0_b1
{L}_0_0_b0:
    add # {2}
    goto {L}_loop
{L}_0_0_b1:
    add 1 {2}
    add 1 {5}
    goto {L}_loop
{L}_t1_1:
    case {1}
    goto {L}_1_e
    goto {L}_1_1
    goto {L}_1_0
{L}_1_e:
    case {5}
    goto {L}_1_e_b0
    goto {L}_1_e_b1
    goto {L}_1_e_b1
{L}_1_e_b0:
    add 1 {2}
    goto {L}_loop
{L}_1_e_b1:
    add # {2}
    goto {L}_loop
{L}_1_1:
    case {5}
    goto {L}_1_1_b0
    goto {L}_1_1_b1
    goto {L}_1_1_b1
{L}_1_1_b0:
    add # {2}
    goto {L}_loop
{L}_1_1_b1:
    add 1 {2}
    add 1 {5}
    goto {L}_loop
{L}_1_0:
    case {5}
    goto {L}_1_0_b0
    goto {L}_1_0_b1
    goto {L}_1_0_b1
{L}_1_0_b0:
    add 1 {2}
    goto {L}_loop
{L}_1_0_b1:
    add # {2}
    goto {L}_loop
{L}_t1_h:
    case {1}
    goto {L}_0_e
    goto {L}_h_1
    goto {L}_h_0
{L}_0_e:
    case {5}
    goto {L}_0_e_b0
    goto {L}_0_e_b1
    goto {L}_0_e_b1
{L}_0_e_b0:
    add # {2}
    goto {L}_loop
{L}_0_e_b1:
    add 1 {2}
    add 1 {5}
    goto {L}_loop
{L}_h_1:
    case {5}
    goto {L}_h_1_b0
    goto {L}_h_1_b1
    goto {L}_h_1_b1
{L}_h_1_b0:
    add 1 {2}
    add 1 {5}
    goto {L}_loop
{L}_h_1_b1:
    add # {2}
    add 1 {5}
    goto {L}_loop
{L}_h_0:
    case {5}
    goto {L}_h_0_b0
    goto {L}_h_0_b1
    goto {L}_h_0_b1
{L}_h_0_b0:
    add # {2}
    goto {L}_loop
{L}_h_0_b1:
    add 1 {2}
    add 1 {5}
    goto {L}_loop
{L}_done:";

/// Usage of `multiply`.
pub const MULTIPLY_USAGE: &'static str = "'multiply' expects 8 arguments: multiply <a> <b> <dst> <tmp1> <tmp2> <tmp3> <tmp4> <tmp5>";

/// `multiply`: Multiplies two backwards binary numbers.
pub const MULTIPLY_BODY: &'static str = "    clear {3}
    copy {2} {4} {5}
{L}:
    case {4}
    goto {L}_done
    goto {L}_add
    goto {L}_shift
{L}_add:
    copy {1} {5} {6}
    bin_add {5} {3} {6} {7} {8}
{L}_shift:
    shift_left {1} {5}
    goto {L}
{L}_done:";

/// Usage of `compare`.
pub const COMPARE_USAGE: &'static str = "'compare' expects 8 arguments: compare <a> <b> <tmp1> <tmp2> <tmp3> <lt> <eq> <gt>";

/// `compare`: Jumps to one of three labels as one number is less than, equal to or greater than another.
pub const COMPARE_BODY: &'static str = "    copy {1} {3} {5}
    copy {2} {4} {5}
{L}_loop:
    case {3}
    goto {L}_a_empty
    goto {L}_a_1
    goto {L}_a_0
{L}_a_empty:
    case {4}
    goto {7}
    goto {L}_drain_lt
    goto {L}_a_empty
{L}_a_1:
    case {4}
    goto {L}_drain_gt
    goto {L}_loop
    goto {L}_diff_a_gt
{L}_a_0:
    case {4}
    goto {L}_loop
    goto {L}_diff_a_lt
    goto {L}_loop
{L}_diff_a_gt:
    case {3}
    goto {L}_dgt_a_e
    goto {L}_dgt_a1
    goto {L}_dgt_a0
{L}_dgt_a1:
    case {4}
    goto {L}_drain_gt
    goto {L}_diff_a_gt
    goto {L}_diff_a_gt
{L}_dgt_a0:
    case {4}
    goto {L}_diff_a_gt
    goto {L}_diff_a_lt
    goto {L}_diff_a_gt
{L}_dgt_a_e:
    case {4}
    goto {8}
    goto {L}_drain_lt
    goto {L}_dgt_a_e
{L}_diff_a_lt:
    case {3}
    goto {L}_dlt_a_e
    goto {L}_dlt_a1
    goto {L}_dlt_a0
{L}_dlt_a1:
    case {4}
    goto {L}_drain_gt
    goto {L}_diff_a_lt
    goto {L}_diff_a_gt
{L}_dlt_a0:
    case {4}
    goto {L}_diff_a_lt
    goto {L}_diff_a_lt
    goto {L}_diff_a_lt
{L}_dlt_a_e:
    case {4}
    goto {6}
    goto {L}_drain_lt
    goto {L}_dlt_a_e
{L}_drain_lt:
    case {4}
    goto {6}
    goto {L}_drain_lt
    goto {L}_drain_lt
{L}_drain_gt:
    case {3}
    goto {8}
    goto {L}_drain_gt
    goto {L}_drain_gt";

/// Usage of `divide`.
pub const DIVIDE_USAGE: &'static str = "'divide' expects 8 arguments: divide <dividend> <divisor> <quotient> <remainder> <tmp1> <tmp2> <tmp3> <tmp4>";

/// `divide`: Divides one backwards binary number by another, with remainder.
pub const DIVIDE_BODY: &'static str = "    clear {3}
    move {1} {4}
{L}_loop:
    compare {4} {2} {5} {6} {7} {L}_done {L}_sub {L}_sub
{L}_sub:
    copy {2} {5} {6}
    bin_sub {5} {4} {6} {7} {8}
    increment {3} {5}
    goto {L}_loop
{L}_done:";

/// Usage of `compare_eq`.
pub const COMPARE_EQ_USAGE: &'static str = "'compare_eq' expects 5 arguments: compare_eq <a> <b> <result> <tmp1> <tmp2>";

/// `compare_eq`: Writes `1` to a register when two registers are equal.
pub const COMPARE_EQ_BODY: &'static str = "    copy {1} {4} {3}
    copy {2} {5} {3}
{L}:
    case {4}
    goto {L}_a_empty
    goto {L}_a_one
    goto {L}_a_hash
{L}_a_empty:
    case {5}
    goto {L}_equal
    goto {L}_not_equal
    goto {L}_not_equal
{L}_a_one:
    case {5}
    goto {L}_not_equal
    goto {L}
    goto {L}_not_equal
{L}_a_hash:
    case {5}
    goto {L}_not_equal
    goto {L}_not_equal
    goto {L}
{L}_equal:
    add 1 {3}
{L}_not_equal:
    clear {5}";

/// Usage of `length`.
pub const LENGTH_USAGE: &'static str = "'length' expects 3 arguments: length <prog> <count> <tmp>";

/// `length`: Counts the instructions of a 1# program.
pub const LENGTH_BODY: &'static str = "    clear {2}
    move {1} {3}
{L}:
    case {3}
    goto {L}_done
    goto {L}_ones
    goto {L}
{L}_ones:
    case {3}
    goto {L}_done
    goto {L}_ones
    goto {L}_hashes
{L}_hashes:
    case {3}
    goto {L}_count
    goto {L}_next
    goto {L}_hashes
{L}_next:
    add 1 {2}
    goto {L}_ones
{L}_count:
    add 1 {2}
    goto {L}
{L}_done:";

/// Usage of `write`.
pub const WRITE_USAGE: &'static str = "'write' expects 3 arguments: write <input> <output> <tmp>";

/// `write`: Writes the 1# program that prints a word.
pub const WRITE_BODY: &'static str = "    clear {2}
    move {1} {3}
{L}:
    case {3}
    goto {L}_done
    goto {L}_one
    goto {L}_hash
{L}_one:
    add 1 {2}
    add # {2}
    goto {L}
{L}_hash:
    add 1 {2}
    add # {2}
    add # {2}
    goto {L}
{L}_done:";

/// Usage of `diag`.
pub const DIAG_USAGE: &'static str = "'diag' expects 4 arguments: diag <reg> <tmp1> <tmp2> <tmp3>";

/// `diag`: Diagonalization: the program `write(x)` followed by `x`.
pub const DIAG_BODY: &'static str = "    copy {1} {2} {3}
    write {1} {3} {4}
    move {3} {1}
    move {2} {1}
{L}:";

/// Usage of `bump`.
pub const BUMP_USAGE: &'static str = "'bump' expects 6 arguments: bump <prog> <n> <output> <tmp1> <tmp2> <tmp3>";

/// `bump`: Raises the register numbers in a 1# program.
pub const BUMP_BODY: &'static str = "    clear {3}
    move {1} {4}
    copy {2} {6} {5}
{L}:
    case {4}
    goto {L}_done
    goto {L}_ones
    goto {L}
{L}_ones:
    add 1 {5}
    case {4}
    goto {L}_emit
    goto {L}_ones
    goto {L}_hash
{L}_hash:
    copy {6} {3} {1}
{L}_add_n:
    case {3}
    goto {L}_emit_1s
    goto {L}_add_n_1
    goto {L}_add_n
{L}_add_n_1:
    add 1 {5}
    goto {L}_add_n
{L}_emit_1s:
    case {5}
    goto {L}_emit_hashes
    goto {L}_emit_1
    goto {L}_emit_1s
{L}_emit_1:
    add 1 {3}
    goto {L}_emit_1s
{L}_emit_hashes:
    add # {3}
    case {4}
    goto {L}_done
    goto {L}_ones
    goto {L}_emit_hashes
{L}_emit:
    case {5}
    goto {L}_done
    goto {L}_emit_final
    goto {L}_emit
{L}_emit_final:
    add 1 {3}
    goto {L}_emit
{L}_done:
    clear {6}";

/// The built-in macro named `cmd`, if there is one.
pub open spec fn builtin(cmd: Seq<char>) -> Option<Builtin> {
    if cmd == "clear"@ {
        Some(
            Builtin {
                arity: 1,
                label_prefix: Some("clr"@),
                usage: CLEAR_USAGE@,
                body: CLEAR_BODY@,
            },
        )
    } else if cmd == "move"@ {
        Some(
            Builtin {
                arity: 2,
                label_prefix: Some("mv"@),
                usage: MOVE_USAGE@,
                body: MOVE_BODY@,
            },
        )
    } else if cmd == "copy"@ {
        Some(
            Builtin {
                arity: 3,
                label_prefix: Some("cp"@),
                usage: COPY_USAGE@,
                body: COPY_BODY@,
            },
        )
    } else if cmd == "pop"@ {
        Some(
            Builtin {
                arity: 1,
                label_prefix: Some("pop"@),
                usage: POP_USAGE@,
                body: POP_BODY@,
            },
        )
    } else if cmd == "swap"@ {
        Some(
            Builtin {
                arity: 3,
                label_prefix: None,
                usage: SWAP_USAGE@,
                body: SWAP_BODY@,
            },
        )
    } else if cmd == "shift_left"@ {
        Some(
            Builtin {
                arity: 2,
                label_prefix: Some("shl"@),
                usage: SHIFT_LEFT_USAGE@,
                body: SHIFT_LEFT_BODY@,
            },
        )
    } else if cmd == "shift_right"@ {
        Some(
            Builtin {
                arity: 1,
                label_prefix: None,
                usage: SHIFT_RIGHT_USAGE@,
                body: SHIFT_RIGHT_BODY@,
            },
        )
    } else if cmd == "increment"@ {
        Some(
            Builtin {
                arity: 2,
                label_prefix: Some("inc"@),
                usage: INCREMENT_USAGE@,
                body: INCREMENT_BODY@,
            },
        )
    } else if cmd == "decrement"@ {
        Some(
            Builtin {
                arity: 2,
                label_prefix: Some("dec"@),
                usage: DECREMENT_USAGE@,
                body: DECREMENT_BODY@,
            },
        )
    } else if cmd == "is_nonzero"@ {
        Some(
            Builtin {
                arity: 5,
                label_prefix: Some("isz"@),
                usage: IS_NONZERO_USAGE@,
                body: IS_NONZERO_BODY@,
            },
        )
    } else if cmd == "bin_add"@ {
        Some(
            Builtin {
                arity: 5,
                label_prefix: Some("badd"@),
                usage: BIN_ADD_USAGE@,
                body: BIN_ADD_BODY@,
            },
        )
    } else if cmd == "bin_sub"@ {
        Some(
            Builtin {
                arity: 5,
                label_prefix: Some("bsub"@),
                usage: BIN_SUB_USAGE@,
                body: BIN_SUB_BODY@,
            },
        )
    } else if cmd == "multiply"@ {
        Some(
            Builtin {
                arity: 8,
                label_prefix: Some("mul"@),
                usage: MULTIPLY_USAGE@,
                body: MULTIPLY_BODY@,
            },
        )
    } else if cmd == "compare"@ {
        Some(
            Builtin {
                arity: 8,
                label_prefix: Some("cmp"@),
                usage: COMPARE_USAGE@,
                body: COMPARE_BODY@,
            },
        )
    } else if cmd == "divide"@ {
        Some(
            Builtin {
                arity: 8,
                label_prefix: Some("div"@),
                usage: DIVIDE_USAGE@,
                body: DIVIDE_BODY@,
            },
        )
    } else if cmd == "compare_eq"@ {
        Some(
            Builtin {
                arity: 5,
                label_prefix: Some("ceq"@),
                usage: COMPARE_EQ_USAGE@,
                body: COMPARE_EQ_BODY@,
            },
        )
    } else if cmd == "length"@ {
        Some(
            Builtin {
                arity: 3,
                label_prefix: Some("len"@),
                usage: LENGTH_USAGE@,
                body: LENGTH_BODY@,
            },
        )
    } else if cmd == "write"@ {
        Some(
            Builtin {
                arity: 3,
                label_prefix: Some("wrt"@),
                usage: WRITE_USAGE@,
                body: WRITE_BODY@,
            },
        )
    } else if cmd == "diag"@ {
        Some(
            Builtin {
                arity: 4,
                label_prefix: Some("diag"@),
                usage: DIAG_USAGE@,
                body: DIAG_BODY@,
            },
        )
    } else if cmd == "bump"@ {
        Some(
            Builtin {
                arity: 6,
                label_prefix: Some("bump"@),
                usage: BUMP_USAGE@,
                body: BUMP_BODY@,
            },
        )
    } else {
        None
    }
}

/// Looks up the built-in macro named `cmd`.
pub fn builtin_lookup(cmd: &Vec<char>) -> (r: Option<BuiltinMacro>)
    ensures
        match r {
            Some(b) => builtin(cmd@) == Some(b@),
            None => builtin(cmd@) is None,
        },
{
    if eq_str(cmd, "clear") {
        return Some(
            BuiltinMacro {
                arity: 1,
                label_prefix: Some("clr"),
                usage: CLEAR_USAGE,
                body: CLEAR_BODY,
            },
        );
    }
    if eq_str(cmd, "move") {
        return Some(
            BuiltinMacro {
                arity: 2,
                label_prefix: Some("mv"),
                usage: MOVE_USAGE,
                body: MOVE_BODY,
            },
        );
    }
    if eq_str(cmd, "copy") {
        return Some(
            BuiltinMacro {
                arity: 3,
                label_prefix: Some("cp"),
                usage: COPY_USAGE,
                body: COPY_BODY,
            },
        );
    }
    if eq_str(cmd, "pop") {
        return Some(
            BuiltinMacro {
                arity: 1,
                label_prefix: Some("pop"),
                usage: POP_USAGE,
                body: POP_BODY,
            },
        );
    }
    if eq_str(cmd, "swap") {
        return Some(
            BuiltinMacro {
                arity: 3,
                label_prefix: None,
                usage: SWAP_USAGE,
                body: SWAP_BODY,
            },
        );
    }
    if eq_str(cmd, "shift_left") {
        return Some(
            BuiltinMacro {
                arity: 2,
                label_prefix: Some("shl"),
                usage: SHIFT_LEFT_USAGE,
                body: SHIFT_LEFT_BODY,
            },
        );
    }
    if eq_str(cmd, "shift_right") {
        return Some(
            BuiltinMacro {
                arity: 1,
                label_prefix: None,
                usage: SHIFT_RIGHT_USAGE,
                body: SHIFT_RIGHT_BODY,
            },
        );
    }
    if eq_str(cmd, "increment") {
        return Some(
            BuiltinMacro {
                arity: 2,
                label_prefix: Some("inc"),
                usage: INCREMENT_USAGE,
                body: INCREMENT_BODY,
            },
        );
    }
    if eq_str(cmd, "decrement") {
        return Some(
            BuiltinMacro {
                arity: 2,
                label_prefix: Some("dec"),
                usage: DECREMENT_USAGE,
                body: DECREMENT_BODY,
            },
        );
    }
    if eq_str(cmd, "is_nonzero") {
        return Some(
            BuiltinMacro {
                arity: 5,
                label_prefix: Some("isz"),
                usage: IS_NONZERO_USAGE,
                body: IS_NONZERO_BODY,
            },
        );
    }
    if eq_str(cmd, "bin_add") {
        return Some(
            BuiltinMacro {
                arity: 5,
                label_prefix: Some("badd"),
                usage: BIN_ADD_USAGE,
                body: BIN_ADD_BODY,
            },
        );
    }
    if eq_str(cmd, "bin_sub") {
        return Some(
            BuiltinMacro {
                arity: 5,
                label_prefix: Some("bsub"),
                usage: BIN_SUB_USAGE,
                body: BIN_SUB_BODY,
            },
        );
    }
    if eq_str(cmd, "multiply") {
        return Some(
            BuiltinMacro {
                arity: 8,
                label_prefix: Some("mul"),
                usage: MULTIPLY_USAGE,
                body: MULTIPLY_BODY,
            },
        );
    }
    if eq_str(cmd, "compare") {
        return Some(
            BuiltinMacro {
                arity: 8,
                label_prefix: Some("cmp"),
                usage: COMPARE_USAGE,
                body: COMPARE_BODY,
            },
        );
    }
    if eq_str(cmd, "divide") {
        return Some(
            BuiltinMacro {
                arity: 8,
                label_prefix: Some("div"),
                usage: DIVIDE_USAGE,
                body: DIVIDE_BODY,
            },
        );
    }
    if eq_str(cmd, "compare_eq") {
        return Some(
            BuiltinMacro {
                arity: 5,
                label_prefix: Some("ceq"),
                usage: COMPARE_EQ_USAGE,
                body: COMPARE_EQ_BODY,
            },
        );
    }
    if eq_str(cmd, "length") {
        return Some(
            BuiltinMacro {
                arity: 3,
                label_prefix: Some("len"),
                usage: LENGTH_USAGE,
                body: LENGTH_BODY,
            },
        );
    }
    if eq_str(cmd, "write") {
        return Some(
            BuiltinMacro {
                arity: 3,
                label_prefix: Some("wrt"),
                usage: WRITE_USAGE,
                body: WRITE_BODY,
            },
        );
    }
    if eq_str(cmd, "diag") {
        return Some(
            BuiltinMacro {
                arity: 4,
                label_prefix: Some("diag"),
                usage: DIAG_USAGE,
                body: DIAG_BODY,
            },
        );
    }
    if eq_str(cmd, "bump") {
        return Some(
            BuiltinMacro {
                arity: 6,
                label_prefix: Some("bump"),
                usage: BUMP_USAGE,
                body: BUMP_BODY,
            },
        );
    }
    None
}

} // verus!
