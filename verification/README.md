# qltp_transport

The transport layer of a peer-to-peer file transfer protocol, written in
Verus. The decision logic of the transport is verified: session lifecycle,
backend capabilities, selection and fallback, wire framing with CRC-32
checksums, forward error correction, buffer pooling, parallel stream
splitting, acknowledgment tracking, resume state and the tuning formulas.

## Layout

- `src/` — the verified library (`qltp_transport`). Each module states its
  behaviour in `requires`/`ensures` contracts over mathematical models, and
  the properties that span several operations are public proof functions
  (`lemma_*`), for example that decoding an encoded frame gives the frame
  back, that FEC decoding rebuilds exactly every block that lost no more data
  shards than it has parity shards (Reed-Solomon style, over the field of
  256 elements, for blocks of at most 256 shards), that
  splitting data over streams and reassembling it in any order is the
  identity, and that terminal session states are final.
- `tests/` — tests of the library on concrete values.
- `app/` — the host side, unverified: probing the machine, file and socket
  I/O, the synchronous transfer client and server, the TCP backend and the
  transport manager that drives it, serde/bincode representations of the
  protocol messages, and the floating-point views of the counters (rates,
  throughput in MB/s and GB/s, entropy, back-off with jitter).

Calls into outside crates (`crc32fast`, `sha2`, `uuid`) and into the
clocks of `std::time` stand behind small trusted wrappers whose contracts say what the
crate documents; everything built on them is verified.
