# codex-auth

A small command-line tool for switching between Codex ChatGPT OAuth accounts,
with its logic written in Verus and proved against its contracts.

```text
codex-auth login [--device-auth]
codex-auth list
codex-auth switch [row|email]
codex-auth remove <row|email>
```

Snapshots of `auth.json` are kept under `<CODEX_HOME>/rust-codex-auth/accounts/`
and a usage registry at `<CODEX_HOME>/rust-codex-auth/registry.json`.

## Layout

- `src/`: the verified library. `auth` reads the identity in an `auth.json`
  (JSON, the JWT payload, workspace and user ids); `registry` keeps the
  account records (upsert, activation, removal, bootstrap); `usage`, `local`
  and `timestamp` read rate-limit usage from the usage endpoint's answers and
  from Codex's rollout files; `rows`, `select`, `format` and `commands` make
  the decisions of the account table and of the commands; `storage` holds the
  file layout; `order`, `text`, `json` and `encoding` are the building blocks.
  Calls into `serde_json` and `base64` stand behind small trusted wrappers
  whose contracts say what the library relies on.
- `app/`: the program around it: argument handling, files, the HTTP request,
  threads, printing, and the floating-point share computation.
- `tests/`: tests of the library on concrete values.
