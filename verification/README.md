# filet_core

Local file automation you can inspect before it runs: YAML or JavaScript rules
turn a file into a versioned action plan (copy, move, rename, run a command),
which is stored, then applied step by step with durable receipts.

- `src/` is the verified library (Verus): configuration checks, condition
  matching, planning and action resolution, content hashing and snapshot
  comparison, the decisions taken while applying and recovering plans and
  while scanning sources, and
  the sandboxed QuickJS evaluation of JavaScript rules with the decoding of
  what they return. Laws that span functions are public proof functions whose
  names start with `law_`.
- `app/` is the `filet` command around it: argument handling, the filesystem,
  the SQLite state database, external processes, file watching and the
  serialized forms of configurations and plans.
- `tests/` exercises the library, including the JavaScript runtime.
