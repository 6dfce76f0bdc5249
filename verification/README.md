# cua_core

The policy layer of a computer-use agent, verified with Verus: which app a name means, how an
accessibility tree is shown, which actions are allowed, which element and which window an action
is aimed at, and what is reported afterwards.

- `src/` is the library. It reads no environment, clock or screen: native reads come in as plain
  values, and decisions go out as plain values. Every function has a contract; what holds of the
  library as a whole is stated by the public proof functions named `law_..`.
- `app/` is the native side: the thread that owns element handles, the environment switches, the
  drawn cursor and floating point geometry. The platform itself stands behind one trait.
- `tests/` runs the library on concrete values.

| Module | Decides |
|---|---|
| `apps` | which running app a query names, or why it names none |
| `snapshot`, `diff` | how a tree is rendered, and what changed between two renderings |
| `menubar` | menu paths, shortcuts, and the walk along a path |
| `safety` | locked sessions, the blocklist, scopes, yielding to a human, destructive labels and keys |
| `session` | snapshots and stale references, windows, aims, and every action before and after its input |
| `text`, `decimal`, `order`, `tree` | the texts, numbers, orders and forests that the others are stated over |
