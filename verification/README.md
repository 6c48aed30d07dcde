# dev_skills

A verified library for the tooling around a collection of agent skills, with
a thin command-line front end.

- `src/` is the library, written in Verus: every function carries a contract
  that Verus proves. It covers the Bun platform auditor (root checks, adapters,
  normalization, safe fixes, release-sync reports, the scan-cache fingerprint),
  the agent configuration-estate scan, the audit gate (fingerprints and
  baselines), the development capsule records (subagent ledgers, subspawn
  plans, PR evidence, task indexes), the Kimi skill sync, and the terminal
  workbench's state machines.
- Calls into outside crates (regex, sha2, serde_json, chrono, serde_yaml_ng,
  toml) go through small trusted wrappers whose contracts name or state what
  the call returns.
- `tests/` exercises the library from outside.
- `app/` reads and writes files, parses arguments and prints results; it holds
  no rules of its own beyond that plumbing.
