# openab

A broker between chat platforms and coding agents, with its decisions verified in
Verus.

`src/` is the library. It does no I/O of its own but for the clock and random
numbers: what else the broker reads comes in as plain values, and what it is to do
goes out as plain values, each under a contract.

- `text`, `table`, `json`, `patterns`: texts, mappings, JSON values, and the two
  regular expressions that are used.
- `config`, `validate`, `startup`: the configuration, what it must meet, and what
  is decided when the broker starts.
- `adapter`, `turn`, `format`: messages, one turn of an agent from its first event
  to the delivery of its reply, and how a reply is cut into messages.
- `pool`: which thread has which session, and which connection gives way.
- `scheduler`, `cronjobs`: when jobs run, and the steps of a run.
- `discord_gate`, `bot_turns`, `discord`, `commands`, `export`: who is answered on Discord and
  where, the commands, exports and histories.
- `gateway`: events and replies of other platforms.
- `context_mcp`, `handoff`, `bot_login`: the context server, handed-off tasks, and
  access to shared spaces.
- `wizard`: the setup's answers and screens.

What is taken on trust are the contracts of outside functions, marked
`external_body` or `assume_specification`; each says above it what it claims.

`app/` is the program around the library: command line, files, sockets, and the
loops that carry the decisions out. `tests/` holds the tests of the library.
