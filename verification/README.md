# sophia_x_authority

Verified routing accounting for the private X11 socket authority: what an
instance accepted, who owes each piece of it an answer, and what is handed on
when the thing holding it goes away. Every function under `src/` is verified
by Verus. The library's own bookkeeping (delivery lists and their
reports, terminated recipients, live native disposal, custody evidence,
composed presses) is written out and verified here. Where a step asks
something outside the library (a registry or store behind a lock, a channel,
the input authority, recovery, the seat's keyboard and mapper), the question
is a function value the caller passes in (a closure, or a method of a small
trait that the embedding implements), and the contract says which step was
asked, with what, and what the library made of whatever it answered, through
`call_ensures`; a separate function that takes the answers as arguments
states each decision exactly. `app/` holds the loops
whose steps are outside work (charged service starts, terminal visits,
recording a native bit with the authority).

## Layout

- `src/settlement.rs`, `src/settlement_handle.rs`, `src/shutdown_handover.rs`:
  the durable owner of abandoned obligations, the handle a shutdown returns,
  and how the parked and stranded work of a closing instance is handed on with
  exactly one owner and one credit each.
- `src/continuation_places.rs`, `src/ordered_home.rs`,
  `src/ordered_continuation.rs`, `src/ordered_turn.rs`, `src/item_credit.rs`:
  places reserved for connections' ordered output, the homes in them, what a
  retained connection still owes, and one turn of the shared order.
- `src/maintenance.rs`, `src/maintenance_commitment.rs`,
  `src/retained_drive.rs`, `src/custody_inventory.rs`: committing a
  connection's maintenance obligation, authorising and pacing drives of
  retained connections, and the bounded inventory of evidence custodies.
- `src/native_hold.rs`, `src/native_custody.rs`, `src/native_freeze.rs`,
  `src/settling_release.rs`, `src/transient.rs`, `src/native_press.rs`:
  native pointer and key obligations from press to reconciliation, composed
  pointer and key presses, releases and transients (checks before install,
  mark before effect, rollback where the effect applied nothing), freezes,
  and releases on their way to a writer.
- `src/key_routing.rs`, `src/key_emission.rs`, `src/pointer_emission.rs`:
  where a key press is reported, and the wire fields of key and pointer
  events.
- `src/terminal_inventory.rs`, `src/terminal_scan.rs`,
  `src/terminal_schedule.rs`, `src/invocation_completion.rs`: what an instance
  owes at its end, the bounded scans over it, the ordered delivery lists and
  their reports, answering terminated recipients, and which kind of terminal
  work each charged step goes to.
- `src/runner.rs`, `src/runner_turn.rs`, `src/lifecycle.rs`,
  `src/admission.rs`, `src/number_custody.rs`, `src/keyed.rs`,
  `src/producer_port.rs`, `src/request_barrier.rs`: preparing the execution
  runner, one service turn's accounting, connection lifecycle custody,
  admission and revocation, client-number custody, and the producer handoff.

Laws that relate several operations are public proof functions named `law_*`
beside the functions they speak of.
