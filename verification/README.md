# rns_runtime

Links of a Reticulum node, verified with Verus: the responder side that manages many Links
(`LinkManager`), and the initiator side that sends one request over a Link of its own
(`LinkClient`, `Query`, `ResponseWait`).

The library does no I/O. It is a state machine: whoever owns it hands in what has happened,
together with what the Links' own machinery (keys, channels, transfers of parts) made of it,
and takes out messages for the transport and notices for the application. Every operation
states, over a mathematical model of its state, exactly what it does.

## Layout

- `src/wire.rs`, `src/port.rs`, `src/assoc.rs`: packets, channels and keyed collections.
- `src/transport.rs`, `src/endpoints.rs`: requests to the transport, their order and their
  answers; who owns which Link endpoint, from the bind to the last barrier.
- `src/manager.rs`, `src/link.rs`, `src/packets.rs`, `src/commands.rs`, `src/tick.rs`,
  `src/setup.rs`: the manager, and what packets, commands and time do to it.
- `src/resources.rs`, `src/inbound.rs`, `src/receiving.rs`, `src/sending.rs`: Resources.
- `src/requests.rs`, `src/destination.rs`: request handlers, announces and packets for the
  destination.
- `src/notices.rs`, `src/events.rs`, `src/render.rs`, `src/metadata.rs`, `src/text.rs`: what
  the application is told.
- `src/client.rs`, `src/query.rs`: the initiator.
- `src/laws.rs`, `src/ledger.rs`, `src/attachment.rs`, `src/overdue.rs`: what holds across
  operations.
- `tests/`: the library at work on concrete values.
- `app/`: the asynchronous runtime around the library.
