# lib

Verified hand-over protocols over shared machine words, written in Verus.

- `src/lib.rs`: a one-word mailbox in a two-word register (`Sender`,
  `Receiver`, `channel`).
- `src/push_pull.rs`: a two-socket channel for values of any type: the
  value crosses in a slot on the wire, and handshake words with parity tell
  each side whose turn it is (`channel`, `MainSocket`, `SubSocket`, `Wire`),
  with the turn-taking invariant, the lemmas that every operation keeps it,
  and the hand-over laws.
- `src/lock.rs`: a lock register that contenders pull down with bit masks
  (`Lock`, `Contender`).
- `app/lib.rs`: mutex-backed sharing of registers and wires between threads.
- `tests/`: scenarios for all three protocols.

The shared memory of every protocol is an ordinary value handed to the
endpoints by reference, so every read and write of it is verified.
