# jivachat

A websocket chat relay between agents, their supervisors and a copilot
service, with messages kept in DynamoDB. The crate's library (`src/`) holds
the relay's logic, verified with Verus; `app/` is the server around it
(sockets, the database, HTTP calls, JSON).

## Layout

- `src/text.rs`, `src/decimal.rs`: splitting text at a character, decimal
  rendering and reading of integers.
- `src/table.rs`, `src/db_item.rs`: a keyed table seen as a map, and the
  stored record of a message (attribute name to string or number). The
  table stands where a `HashMap<String, _>` would: vstd specifies `HashMap`,
  but with `String` keys its lookups cannot be tied to the keys' text, so
  the table is a `Vec` of entries whose keys never repeat, proved against
  `Map` operations.
- `src/ids.rs`, `src/clock.rs`: message identifiers (UUIDs) and the clock.
- `src/agents.rs`, `src/copilot.rs`, `src/messages.rs`: the two kinds of
  message, their records, chats and their history; the law that reading back
  a stored message gives the message back.
- `src/connections.rs`, `src/init.rs`: the kind of a connection, the agent id
  and secondary id named by an opening request (`agentID`, `secondaryID`), reading a chat's stored messages.
- `src/stream.rs`, `src/state.rs`: the copilot's streamed reply, and the
  broadcast channel of each chat.
- `app/`: the server (`main.rs`), the DynamoDB calls (`store.rs`), the JSON
  forms of messages (`wire.rs`) and the shared connection state (`state.rs`).
