# roomrtc

The protocol logic of a peer-to-peer WebRTC stack, written in Verus: each
function states what it does in its `requires`/`ensures`, and Verus proves
it.

- `src/` is the verified library:
  - `stun/`, `turn/`: STUN (RFC 5389) and TURN (RFC 5766) messages, their
    encoding, decoding and attribute handling, and the steps of the search
    for the reflexive address over a list of STUN servers;
  - `sdp/`: session descriptions (RFC 4566): parsing, validation, writing,
    and the proof that a written description reads back as itself
    (`sdp/round_trip.rs`);
  - `connection/`: what a connection writes into and reads from session
    descriptions (offer/answer, DTLS fingerprint, remote ICE endpoint), and
    whether it is ready for its DTLS handshake;
  - `session/`: the file-transfer protocol (messages, transfers, the file
    channel's flow control) and control messages;
  - `bytes.rs`, `text.rs`, `ip_text.rs`, `clock.rs`: big-endian integers,
    text building, addresses as text, and the clock.
- `app/` holds what is not verified: sockets, name resolution, files, and the
  types that carry derives of outside crates.
- `tests/` runs the library on concrete values.
