# coraldesk

The logic of CoralDesk's tools, written in Verus: each function states what it returns,
and Verus proves it.

- `src/` is the library. Of the machine it asks only the time, fresh identifiers, and
  where programs and the home directory are.
  - `tools/subagent_execute` runs a delegate agent and waits for its answer.
  - `tools/team_context` lets roles share context through a coordination bus.
  - `tools/context_registry` stores outputs under numbers, so that they can be referred to.
  - `observability/llm_debug` logs the calls to a model.
  - `runtime/native` finds a shell and builds commands for it.
  - `security/file_link_guard` tells files with several hard links.
  - `tunnel/tailscale` opens a tunnel.
  - `text`, `json`, `lists`, `paths` and `system` are what the others are made of.
- `app/` performs what the library asks for: it starts processes, reads and writes files,
  and talks to providers and to the bus.
- `tests/` runs the library.

An operation that needs a service is a series of steps. A function says what is needed
next, as a value; whoever drives the operation does it and hands what came back to the
next function. What each step returns is stated as a specification function of its
arguments, so that what holds of a whole operation can be stated and proved.

What the library takes from other crates stands behind small functions whose contracts
are believed rather than proved: they are in `json.rs` and `system.rs`, and one in
`text.rs`.
