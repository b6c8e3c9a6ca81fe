# typeck

Static checking of a small C-like language, verified with Verus.

`typecheck` takes a parsed program (every node carries its `beans` span,
identifiers index a table of names) and either returns the program with a
type on every expression, or every error it found, in order.

The rules live as spec functions in `src/rules.rs`; each checking function
is proved to compute exactly what they say. Other facts proved:

- a program checked without errors is fully typed (`src/complete.rs`);
- leaving a block gives back the scope it was entered with, functions
  declared in it included, when no block declares a name twice
  (`src/scope.rs`); checking a function puts just that function in
  scope; a declaration is visible only to the items after it; a `for`
  loop with a declaration is checked as the block of that declaration
  and the loop;
- laws of type compatibility and of the conversions between types
  (`src/laws.rs`).

Layout of `src/`:

| module | contents |
| --- | --- |
| `types` | types, compatibility, how types are written |
| `span` | source spans (`beans`) and spanned values |
| `ast` | the parsed program and its well-formedness |
| `model` | the mathematical view of typed trees |
| `error` | errors and the notes attached to them |
| `style` | bold text (`colored`) |
| `env` | the scope |
| `rules` | what checking yields, as spec functions |
| `check` | checking expressions |
| `program` | checking instructions, blocks, functions, programs |
| `partial`, `full`, `annot` | partially and fully typed trees |
| `convert` | from partially to fully typed trees |
| `bounds`, `complete`, `scope`, `laws` | proofs |
