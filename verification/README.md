# wasmrepl

An interactive shell for WebAssembly text: each line either defines a function
(`(func $f ...)`) or declares locals and runs an expression on a value stack
that persists between lines. A line that fails leaves no trace.

The engine is a library verified with Verus:

- `value`, `ops`, `op`, `integer`: values and integer arithmetic with
  WebAssembly semantics (wrapping, signed/unsigned division, shifts,
  rotations, comparisons);
- `stack`, `list`, `dict`, `elements`, `locals`: containers whose changes are
  committed or rolled back as a whole;
- `call_stack`: frames of blocks over typed locals;
- `group`, `preprocessor`, `analyzer`: structure of flat instruction
  sequences (`if` / `block` / `loop` / `else` / `end`);
- `syntax`: the checks that turn what the text format writes (held as plain
  values) into the model, refusing what the engine does not support;
- `handler`: the effect of one instruction;
- `semantics`: an abstract machine (frames of value stacks and locals) that
  says what running code computes, with a step budget;
- `executor`: running lines, with commit on success and rollback on failure;
  every line's answer and resulting stack are those of the machine's run.

Float values travel as their IEEE-754 bit patterns; float arithmetic and
float text come from the `FloatOps` implementation the program supplies. The
library states which request it hands over for each float instruction (the
operation and the operands' bit patterns, in order) and what it does with the
answer; the answers themselves are the host's.

`app/` holds the shell itself: reading lines, parsing the text with `wast`,
reading the parsed tree into the library's plain values, and the host float
arithmetic.
