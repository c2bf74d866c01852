# shapshap

Formats git commits as Linux kernel patch mails, checks patches and commit
messages against the kernel's submission rules, and reports diff statistics.

- `src/` is the verified library (Verus): patch composition (`patch`), diff
  rendering (`diff`), statistics (`patch_stats`), validation (`validation`),
  file-name sanitising and byte utilities (`asm_utils`), settings (`config`)
  and the shared text helpers (`text`).
- `app/` is the command-line program (`patch`, `validate`, `check`, `init`,
  `stats`, `test-apply`): it reads the repository with git2, the
  configuration file with toml, runs `git am` for `test-apply`, and writes
  the files and coloured reports the library composes.
- `tests/` runs the library on concrete inputs.
