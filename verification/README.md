# chibi_script

A small language, monye, with its lexer, parser, translator to register-machine
code and the machine that runs that code, verified with Verus.

- `src/syntax/`: the lexer (tokens with byte spans), the syntax tree, the
  grammar as spec functions, and the recursive-descent parser proved against it.
- `src/lexer.rs`: an older lexer kept beside the current one.
- `src/translate/`: the environments, the typing rules, the model of what
  translation computes (`model.rs`), and the translator proved against it.
- `src/instruction.rs`: the instruction set.
- `src/runner.rs`: the machine as a step function; whoever drives it performs
  the writes and decides when to stop.
- `src/report.rs`: locating an error's line in the source.
- `src/laws.rs`: properties of the library as a whole.
- `app/main.rs`: the `monye` command: reads a file, translates and runs it.
