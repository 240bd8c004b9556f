# inr

A secure, searchable command-line vault, with its logic verified by Verus.

`inr` stores the shell commands you run every day, with placeholders for the
values that you fill in each time, plus encrypted secrets and plain env-style
variables.

- `src/` is the library: placeholders, substitution and quoting, encryption and
  the canary, the transfer file, the changes that each command makes to the
  vault, and the decisions behind every prompt. Contracts say what the functions
  return, and Verus proves them. `src/commands/import/laws.rs`,
  `src/commands/import/fresh.rs`, `src/substitution.rs`, `src/placement.rs` and
  the `pub proof fn`s next to the functions state what holds of several functions
  together.
- `app/` is the program: arguments, prompts, the SQLite file, the clipboard and
  the shell.
- `tests/` runs the library, against an in-memory database where one is needed.

The library works on values. Where the database is concerned, it gives the SQL
statements for a change and says in `src/db/vault.rs` what the change does to a
vault; the program carries the statements out in a transaction. What is taken
on trust from other crates (AES-GCM, Argon2, zeroize, shell-words, crossterm and
parts of the standard library) stands in small wrappers, each with a comment
that says what is believed.
