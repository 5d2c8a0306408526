# buddy-rescue

Inspection and recovery of Buddy password vault databases, with the rules proved in Verus.

- `src/` is the verified library. It decides what an inspection reports about a database
  (schema, integrity, vault settings, record and attachment counts), which vault an export
  selects and whether it can be unlocked, which entries are exported and which are refused
  with an issue, how attachments are recovered (a step-by-step job that the caller drives),
  the CSV columns and TOTP URIs, the manifest and summary, whether an existing destination
  may be replaced, and the exit status. `src/laws.rs` states properties that hold across
  inputs, such as cleaned attachment names being safe path components, every entry row being
  accounted for, and an export depending on nothing but the chosen vault's own records.
- `app/` is the command-line program around it: it reads SQLite with `rusqlite`, decrypts
  with `buddy-crypto-core`, writes files, and hands the library plain values.
- `tests/` runs the library on concrete inputs.
