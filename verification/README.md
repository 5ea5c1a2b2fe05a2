# simplicityhl

The front end of the SimplicityHL compiler: from parsed source files to a type-checked syntax tree,
with contracts that [Verus](https://github.com/verus-lang/verus) proves.

- `src/` is the verified library.
  - `resolution` maps `use` paths to files inside the packages that own them.
  - `driver` collects the files of a project, orders them and turns them into one program.
  - `order_check` checks that functions are defined before they are used.
  - `ast` resolves names and checks types. `ast/rules.rs` states the rules of the analysis, and
    `ast/typing.rs` states when a tree is well typed.
  - `error` holds the errors of all stages and renders them with the lines of the source.
  - Modules whose names end in `laws` state and prove what holds of several functions together.
- `tests/` runs the library on small programs and workspaces in memory.
- `app/` reads files, looks up paths on disk, and implements the traits of other crates.
