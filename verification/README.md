# qtbridge

Verified building blocks of a Qt bridge application and its tooling.

- `src/env.rs`: the explicit environment that build commands run with
  (`HOME`, `PATH` and an allowlist of forwarded variables), modelled as a map
  from names to byte strings that always holds `PATH`.
- `src/config.rs`: the runtime configuration sections and their defaults.
- `src/migrations.rs`: the decisions of a schema-migration run, as a state
  machine whose successful runs apply each pending step exactly once.
- `app/`: the process-facing side: reading the process environment, loading
  the configuration with figment, and driving migrations on a SQLite
  connection with rusqlite.
- `tests/`: tests of the library on concrete values.
