# moq-net

Media over QUIC networking: real-time pub/sub with caching, fan-out and prioritization, as a
library whose rules are proved with [Verus](https://github.com/verus-lang/verus).

- `src/coding/` reads and writes bytes: varints, lists, strings, framed messages. Every
  message can be read back from what was written for it.
- `src/path.rs`, `src/error.rs`, `src/poll.rs`, `src/keyed.rs` are shared pieces: broadcast
  paths, errors with their wire codes, values that may not be there yet, keyed maps.
- `src/model/` is what is published: origins with their tree of broadcasts, tracks, groups and
  frames, with cursors that read them.
- `src/lite/` is the moq-lite protocol: its messages, and one state machine for each thing a
  session does (announcing, following announcements, serving a subscription, feeding a track,
  probing).
- `src/client.rs` negotiates a version.
- `app/` moves the bytes: async loops over a WebTransport session that hand events to the
  library and carry out what it answers.
- `tests/` runs the library.

Nothing in the library shares memory behind the caller's back. A producer owns its state; a
reader is a cursor that is handed the state it reads. What several handles have in common has
a number, called a channel.
