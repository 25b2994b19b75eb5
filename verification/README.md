# one_hash

A 1# (one-hash) interpreter and assembler, written in Verus.

1# is a text register machine with two symbols, `1` and `#`. A program is a
sequence of instructions `1^n#^k` (k from 1 to 5): append `1` or `#` to
register n, jump forward or backward n instructions, or branch on the first
symbol of register n. Registers hold words, read as numbers in backwards
binary (least significant bit first, `1` = 1, `#` = 0).

## Layout

- `src/` is the verified library. Every function there has a contract that
  Verus proves.
  - `text.rs`: character-level text helpers (trimming, splitting into words
    and lines, decimal numbers), each proved against a spec function.
  - `types.rs`: symbols, words and their values.
  - `instruction.rs`: the five instructions and their 1# encoding.
  - `parser.rs`: reading 1# text into instructions; parsing an encoded
    program gives it back.
  - `machine.rs`: the machine, its abstract state and a spec of one step and
    of a whole run.
  - `assembler/`: the assembly language (`mod.rs`), its macro expansion
    (`macros.rs`), the built-in macro templates (`templates.rs`), what
    the programs of several built-in macros do when run (`behaviour.rs`),
    how those macros' templates assemble to these programs
    (`template_programs.rs`), and what the binary addition and subtraction
    programs compute (`addition.rs`, `subtraction.rs`).
  - `repl.rs`: the decisions of the two REPLs, one input line at a time:
    which command a line is and how it changes the registers or the code
    buffer.
- `tests/` runs the library on concrete inputs.
- `app/` is the command-line program: argument handling, files, the REPL
  loops (reading a line, doing what the library decided) and printing.
