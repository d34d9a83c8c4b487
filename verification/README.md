# sapphire

The front end and runtime library of the Sapphire language, verified with
Verus: lexer, parser, type checker, bytecode compiler, the runtime's values,
heap and native method tables, and the string, list, map, set, range, JSON,
regex, process and date-and-time natives.

- `src/` — the verified library.  Its functions carry contracts in
  `requires`/`ensures`; `laws.rs` holds the properties that relate several
  operations.  Calls into `regex` and `jiff`, a few of `std` (case mapping,
  `Debug` rendering) are the trusted items, each with its contract, if any,
  next to the call.
- `tests/` — tests of the library on concrete programs and values.
- `app/` — the `sapphire` command line (`typecheck`, `doc`, `version`) and the
  native methods that do I/O or floating point, around the library.
