# xproc

Build shell-like commands from template strings, and describe how they run.

- `src/` — the verified library:
  - `template.rs`: the template language (`'quoted'`, `{name}`, `{name..}`,
    bare words) — a lexer and the grouping of tokens into command-line parts;
  - `expand.rs`: the expansion of `cmd!`, `arg!` and `args!` from input
    tokens (`tokens.rs`) to the tokens of the code that builds the command,
    with diagnostics as `compile_error!` calls;
  - `cmd.rs`, `env.rs`, `stdio.rs`, `error.rs`: commands, argument lists,
    environment changes, stream setup, errors and how they are shown;
  - `laws.rs`: what the template language promises, proved;
  - `text.rs`: character classes and scanning.
- `app/` — spawning processes with `std::process`, writing their input and
  collecting their output.
- `tests/` — tests of the library.
