# waygate-upstream

The decision core of an upstream connection pool for an MCP gateway, written and
proved in Verus.

The pool keeps lanes open to every configured upstream, publishes the tools that
all lanes of an upstream agree on, decides which contract a call runs under, and
recovers lanes, refreshes listings and follows manifest reloads without ever
showing half of a change.

- `src/` is the library. Every rule is a function on plain values; its contract
  says what it returns or changes, and public proof functions state what holds
  across functions: that a newer reload is never undone by an older one, that a
  refused schema is reported once per interval in which it is served, that no call
  is sent before every gate is passed.
- `tests/` runs the library on concrete values.
- `app/` is the program around it: sessions, locks, timers, storage. It hands the
  library plain values and carries out what the library decides.

`clock`, `names`, `assoc`, `text` and `value` are the ground the rest stands on.
`manifest`, `tools`, `lane` and `entry` are the data; `shape`, `admission`, `facts`,
`binding`, `drift`, `health`, `contracts` and `freshness` judge it. `reconnect`,
`heal`, `redial`, `boot`, `reload`, `transitions` and `refusal_record` hold the state
machines of recovery and change; `call`, `dispatch`, `recovery`, `resources`, `files`,
`listing`, `listen` and `discovery` those of requests. `pool`, `snapshot`, `resolution`,
`lifecycle` and `structural` put them together.
