# ironrdp-rdpei

The client side of RDPEI, the touch input extension of the Remote Desktop Protocol, verified
with Verus.

- `src/` is the library. `RdpeiClient` follows what the server says about touch input, answers
  `SC_READY`, and encodes touch contacts for the dynamic virtual channel. Every function has a
  contract that fixes its result and its errors.
- `src/reader.rs` says how the peer reads the wire forms, and proves that it gets what was written.
- `src/laws.rs` holds what is true of the client and of its touch events as a whole.
- `app/` puts the client on a channel of `ironrdp-dvc`.
- `tests/` runs the library.

What is not proved stands in two files. `src/rdp_core.rs` says what the cursors and the error
constructors of `ironrdp-core` do, and `src/dvc.rs` says what `encode_dvc_messages` of `ironrdp-dvc`
does.

A `RdpeiClientPdu` that is given too little room to encode itself returns a "not enough bytes" error
and writes nothing, also where its header alone would fit.
