# caligula (verified core)

The logic of the caligula disk imager, written in Verus and proved against its
contracts:

- `src/candidate.rs`: certainties measured in bits, candidates with reasons, and
  the choice of the likeliest candidates, with the laws of certainty addition and
  of the candidate order.
- `src/herder.rs`: the action-group protocol types and the decisions of a herder
  that falls back to a second one.
- `src/write_verify.rs`: the write/verify action, its events and its errors.
- `src/rpc.rs`: which requests of the RPC client wait for a response, and the
  sender stored for each; how request identifiers are handed out; and what each
  incoming message does: a response is sent on the sender stored under the
  identifier it names, and a transport failure on every stored sender, once each.
  A new request stores the sending half of a fresh channel and hands back its
  receiving half. The trusted calls in `src/external.rs` record each channel
  opened (both halves) and each send (with the sender used).
- `src/gui.rs`: the user's choices in the graphical interface, which steps are
  open, and the background worker's state machine.
- `src/external.rs`: the outside types and calls the library relies on, with the
  contracts it believes of them.

`app/` holds the program around the library: logging, the asynchronous herder
interface and the RPC transport. The window of the graphical interface, which
draws what `src/gui.rs` decides, is not part of this crate.
