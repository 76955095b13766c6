# pluto

Verified pieces of the Pluto compiler front end, written in Verus.

`src/` is the library. Every function in it carries a contract that Verus
proves:

- `span`, `diagnostics`: source spans and compiler errors.
- `parser`: the syntax tree (declarations, functions, classes, statements,
  expressions, type expressions) and the binding powers of binary operators.
- `typeck`: Pluto types, their conversion to type expressions, and mangled
  names of generic instances.
- `pretty`: the pretty printer for type expressions and declarations, and
  string escaping.
- `monomorphize`: substitution of type parameters (in type expressions,
  declarations, function and class bodies), resolution of generic instances
  with their registration in the type environment, span offsetting and the
  instantiation of generic enums.
- `stages`: flattening of stage inheritance.
- `reflection`: the debug text of types and the generated `TypeInfo_kind_`
  function of an enum.
- `prelude`: injecting the prelude's declarations in front of a program's
  own, with the checks made first.
- `sync`: keeping declaration ids stable across edits, and type equality that
  ignores spans.
- `rust_ffi`: the scanner for public Rust function signatures, `cargo metadata`
  output reading, glue crate text and the bridging of Rust functions into
  Pluto.
- `server`: the data types of the compiler service and diagnostics, and the
  declaration summaries of a program.
- `toolchain`: version names, release URLs and install checks.

The laws of the library (the `lemma_*` proof functions) state properties that
span several calls, such as that the printer's precedence table and the
expression parser's binding powers order the operators alike, that injecting
the prelude twice changes nothing, or that flattening leaves no stage
abstract.

`app/` holds what runs around the library: file system and network access,
running `cargo`, and the serde copies of the service types.

`tests/` exercises the library on concrete inputs.
