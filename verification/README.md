# chatcall

A peer-to-peer voice and text chat library whose logic is verified with
Verus: one user hosts a room, others join it with a 7-character room code,
and voice, chat and control messages travel over a small binary protocol
encrypted per session.

## Layout

- `src/` — the verified library.
  - `packet_type`, `packet`, `wire`: the 8-byte header and the voice, chat
    and control packet layouts, with parse/serialize round-trip laws.
  - `codec`: length-prefixed framing of packets on a TCP byte stream
    (over `bytes::BytesMut`), with resynchronisation on corrupt input.
  - `room_code`: IPv4 ⇄ 7-character room codes (two XOR layers, a byte
    shuffle and a shuffled base-36 alphabet), dotted-decimal parsing and
    printing, and the round-trip law.
  - `cipher`, `keypair`, `session_key`: ChaCha20-Poly1305 with counter
    nonces, X25519 key pairs, and the per-direction session keys.
  - `ack_tracker`, `ordering`: retransmission bookkeeping and in-order,
    duplicate-free delivery.
  - `jitter_buffer`, `pipeline`, `sample_buffers`, `vad`, `mixer`: the
    integer side of the audio path (reordering, playback decisions,
    framing of captured samples, the playback backlog, the voice-activity
    state machine, the mix plan).
  - `room_state`, `session`, `peer_table`, `ui`, `chat`, `profile`: room
    membership, the host's and client's protocol decisions, UDP peer
    bookkeeping, the shell's room status, chat messages and profiles.
- `tests/` — tests of the library on concrete values.

## Design notes

- Sets of 16-byte message ids (the ids an orderer has seen, the messages
  awaiting an acknowledgement) are `Vec`s with the invariant that no id
  occurs twice. vstd specifies `HashSet` and `HashMap` only for key types
  with a known hash and equality model (integers, `bool`, boxed
  integers); `[u8; 16]` has none, so no contract over a hash set of ids
  could be proved.
- Lengths of time are `clock::TimeSpan` values (nanoseconds). `Duration`
  is opaque to the verifier, so a timeout given as a `Duration` could not
  appear in a contract.
- `app/` — the unverified shell: sockets (tokio), the room host and client
  tasks, LAN discovery, SQLite storage, serde/bincode encodings, the audio
  devices (cpal), the Opus codec, floating-point mixing and energy
  detection, and the user-interface commands.
