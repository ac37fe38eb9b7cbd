# btce_trollbox

A terminal viewer for the btc-e trollbox: it follows several chat rooms at
once over websockets and, between the chat lines, shows large btc_usd trades
polled from the trades API.

- `src/` is the verified core (Verus): unwrapping pusher chat events and
  decoding the chat messages they carry, the
  JSON-escaped subscription request and reconnection decisions of a chat
  connection, the listener's reactions and keep-alive decisions, the grammar
  of an addressee at the start of a message, reading trade records and trades-API replies, the
  polling schedule of the volume monitor, and the coloured layout of what is
  printed. `src/laws.rs` holds the properties that span several functions.
  JSON is parsed and encoded by `rustc_serialize`, name colours hashed by
  std's `SipHasher`, and Unicode decimal digits are told apart by `regex`,
  behind trusted functions; everything else is proved. Numbers with
  an exponent too large for the parser to gather are found beforehand, and
  such a text counts as unreadable.
- `app/` is the program: argument parsing (`docopt`), websocket connections
  (`websocket`), HTTP requests (`hyper`), threads, terminal colours (`term`),
  and everything that touches floating point (trade amounts and prices).
- `tests/` exercises the library on concrete inputs.
