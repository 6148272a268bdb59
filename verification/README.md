# composelint

A linter for common `docker-compose.yml` misconfigurations: floating image
tags, missing restart policies, `network_mode: host`, `privileged: true`, and
published ports bound to every host interface.

- `src/` is the library, verified with Verus: the YAML model (`yaml.rs`),
  string helpers (`text.rs`), port-string splitting (`ports.rs`), the
  Compose walk (`parser.rs`), the five rules (`rules.rs`) and the report
  (`report.rs`). Parsing and writing YAML go through `serde_yaml`.
- `app/` is the command-line front end: argument handling, file reading,
  printing and the `--json` output.
- `tests/` runs the library on concrete inputs.

Exit status: 0 when clean, 1 with findings, 2 when the file cannot be read
or is not valid Compose YAML.
