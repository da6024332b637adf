# skye

Parts of a compiler for the Skye language, written in Verus and verified against their
contracts.

## Layout

- `src/` — the verified library:
  - `tokens.rs`, `list.rs`, `ast.rs`: tokens, the immutable list used by the syntax tree, and the
    syntax tree itself, with positions and deep copies.
  - `ast/constant_folder.rs`, `constant_folder.rs`: constant folding of literal operands of
    integer `+` and `-`, unary operators, ternaries, subscripts and `if`, with overflow,
    negated unsigned literals and out-of-bounds indices reported as diagnostics.
  - `ast/replace.rs`: substitution of an expression for a variable throughout the tree.
  - `import_processor.rs`, `ast/import_processor.rs`: the paths an import stands for (its
    `/`-separated parts and their components), what is done with each `import` (load, keep,
    drop, reject), duplicate detection per namespace, and the diagnostics reported.
  - `codegen.rs`: the C back end's output buffers, name mangling against C keywords, array and
    function-pointer typedefs, scopes, and the ordering of declarations after their
    dependencies (through the `topo_sort` crate).
  - `ir.rs`, `irgen.rs`: qualifiers and operators of the intermediate representation, and the
    splitting of interpolated strings.
  - `package.rs`: which directory entries make a package (project file, setup file, folder).
  - `diagnostics.rs`: diagnostics and error counts.
  - `lib.rs`: the compiler's configuration and the base imports placed before a program.
- `app/` — what runs around the library: command-line types (clap), file and process I/O,
  packaging (zip, reading the package directory), the import traversal that loads files,
  and printing of diagnostics.
- `tests/` — tests of the library on concrete inputs.

## Not here

The generation of the intermediate representation (evaluation of expressions, execution of
statements, calls and builtin macros), the translation of that representation into C, and
the whole compilation pipeline (`compile`, `parse`) are not part of this crate: the type
system, environment, scanner, parser and macro expander they rest on are not available to it.
