# phper

A verified library for the value layer that PHP extensions written in Rust
work with. Its public functions carry `requires`/`ensures` contracts that
Verus proves; the engine itself is represented by explicit state (a class table, a
constant table, an ini table, the executor's pending exception) that the
functions take and change.

Layout of `src/`:

- `types`, `values`, `strings`, `arrays`, `objects`, `references`,
  `resources`: zval type tags and the values themselves. Arrays follow the
  symbol-table rules (a numeric string key and the integer it spells address
  the same slot), and their laws (a read after a write gives the written value,
  other slots are untouched) are proof functions in `arrays`; that no key
  occurs twice is the array type's invariant. Values can
  be copied deeply (`ZVal::clone`).
- `numeric`, `utils`: integer texts, `strtol`, and C-string helpers.
- `classes`, `enums`, `functions`, `constants`, `ini`, `modules`: the
  builders of an extension and what the engine makes of them at startup,
  with the class hierarchy (`derives`) and its laws.
- `errors`, `output`: error types, their exception objects, the executor's
  pending exception and the guard that sets it aside.
- `builder`: PHP-syntax descriptions of types, values and signatures.
- `cmd`, `boxes`, `context`: file names for installing an extension, owned
  boxes, and the contexts users implement.

The tests under `tests/` run the library on concrete values.
