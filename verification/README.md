# witx_codegen

Generates AssemblyScript (or, in TypeScript mode, TypeScript) declarations
for the modules of a WITX interface description: every named type with its
constants (aliases, atoms, enums, constant sets, structures, tuples and
unions), every function, and in export mode the interface, the
`add…ToImports` function and one import wrapper per function. Every
generated text is specified exactly and proved with Verus.

Each module section starts with the generator's prelude unless
`skip_header` is set. The prelude is the text given with
`AssemblyScriptGenerator::with_header`; a generator made with `new` has an
empty one, so no runtime helper library is emitted by default. The helper
definitions that generated code refers to (`WasiMutPtr`, `TargetType`,
`union`, …) are expected to come from that prelude or from the project
that uses the output.

Not produced: a declaration for a named type that is itself a pointer,
`Void`, an option or a result, and for types that have no AssemblyScript
expression; a document holding one is refused by `can_generate`, and the
writer in `app/` panics on it, as it has no output for it.

Layout:

- `src/text.rs`: number rendering, bit counting, line splitting, string
  comparison.
- `src/pretty_writer.rs`: the indenting output buffer.
- `src/astype.rs`, `src/document.rs`: the model of WITX types and documents
  that the generators read, member paddings, and the lowering of values to
  scalar parameters.
- `src/variant.rs`: how a variant is read (boolean, outcome, option,
  enumeration or tagged union).
- `src/assemblyscript/`: naming conventions and type expressions
  (`common.rs`), type and constant declarations (`mod.rs`), structures
  (`struct_def.rs`), tuples (`tuple.rs`), unions (`union_def.rs`),
  functions and their import wrappers (`function.rs`), and the generation
  of whole documents (`mod.rs`).
- `app/`: converts a parsed `witx::Document` into the model and writes the
  generated code to a `std::io::Write`.
- `tests/`: concrete examples of every declaration kind.
