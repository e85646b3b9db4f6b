# weave

Agents that share a session, and the chat that talks to them. One agent mentions
others (`#alex please look`), its model names the steps of the task, and the steps
go to those agents through a coordinator; what they reply comes back into the
conversation.

The library is written in Rust and verified with Verus. It does no input or output:
each event changes a value, and what is to be done outside is put into an outbox.

## Layout

- `src/text.rs`, `src/table.rs`, `src/json.rs`: texts, tables and JSON values.
- `src/client.rs`, `src/envelope.rs`, `src/incoming.rs`, `src/connection.rs`,
  `src/exchange.rs`: what goes over the wire, what is read of it, and that the two
  agree.
- `src/mentions.rs`, `src/agent_mentions.rs`, `src/prompts.rs`, `src/relay.rs`: who a
  text names, what the model is told, and what it answers.
- `src/chat/`: the chat. `state.rs` holds what it remembers, `laws.rs` what holds of
  it as a whole.
- `src/menus.rs`, `src/pickers.rs`, `src/approvals.rs`, `src/popup.rs`,
  `src/transcript.rs`, `src/limits.rs`, `src/sender.rs`: what the user sees and picks.
- `src/updates.rs`, `src/paths.rs`: newer versions, and where the coordinator's
  sockets are.
- `src/outside.rs`: what is taken from other crates and believed.
- `app/`: the sockets of the coordinator, the file that remembers versions, the
  percentages of the limits, the match of names as the user writes, and the loop that
  empties the outbox.

## Contracts

Each type has a mathematical value, and each function says what it makes of those
values. Functions that draw identifiers say so of every tape of identifiers that
goes on from the ones they drew. What holds of several functions together stands in
proof functions whose names begin with `law_`.
