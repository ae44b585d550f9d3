# som_interpreter

The verified core of an interpreter for SOM (Simple Object Machine), a small
Smalltalk dialect: the compiler from syntax trees to bytecode, the value
encoding, the primitives on integers, strings and arrays, and the decisions
the interpreters take at each step. Verus proves each function under `src/`
against its contract, except the small trusted wrappers that call
`num-bigint`, `num-traits`, `indexmap`, `rand` and `char`'s Unicode
predicates; their contracts state what those crates and std document, and
their doc comments say so.

The library has no evaluation loop and no universe: nothing here loads class
files, runs the bytecode of a method from send to return, or manages the
garbage-collected heap. `FrameState::step` decides one instruction and
`FrameLinks` decides where a return from a block goes; a driver that loops
over them is left to the embedding program.

`app/` holds the plain Rust around the library: the input and output of the
interactive shell (which hands each expression to an evaluator that the
embedding program supplies), the text listing of compiled methods, the
message of a refused class definition, and the `Double` primitives, which
compute on floating point.

## Layout of `src/`

- `value`, `value_enum`, `convert`, `gc`: the NaN-boxed value encoding, its
  enumerated form, how a primitive reads its arguments, and the type tags of
  the objects on the garbage-collected heap.
- `bytecode`, `compiler`, `literal_set`, `peephole`, `method_compiler`:
  the bytecode set, the code generation context, the literal table, the
  peephole pass that drops redundant `DupPopX`/`Pop` pairs, the stack-depth
  analysis, and compiled methods with their signature and holder.
- `ast`, `codegen`, `inliner`, `class_compiler`: code generation from the
  syntax tree, the inlining of control-flow messages (`ifTrue:`,
  `whileTrue:`, `and:`, `to:do:` and their kin), and the assembly of classes
  with their field layout, field values and method tables, and method
  lookup along a superclass chain.
- `class_shape`, `globals`: the layout of a class of the AST interpreter
  from its definition (fields, methods and primitives, each held by its
  class), and the table of global bindings.
- `interpreter`, `frames`, `specialized`: one step of the bytecode
  interpreter, the links between frames for non-local returns, and the
  decisions of the specialized AST nodes.
- `bigint`, `numerals`, `primitives`: integer arithmetic with promotion to
  and demotion from big integers, decimal parsing and printing, and the
  primitives of the core classes.
- `interner`, `shell`: symbol interning and the decisions of the
  read-eval-print loop.
