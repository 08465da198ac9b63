# polling_monitor

Monitors batches that were submitted to services of a distributed ledger.

A poll reads the ids of the batches that are still pending, asks each service
once for the statuses of its batches, and hands the statuses that came back to an
updater. Statuses that were not asked for, and statuses that are unknown, are
reported and not updated. Observers are told of every step.

- `src/` decides: it is written in Verus, and its contracts are proved.
  - `base`: the error type and the traits that connect a monitor to a ledger
  - `event`: the events that observers receive, and the lines that report them
  - `requests`: from pending batches to requests
  - `responses`: from a response to events and an update
  - `monitor`: the observers, and the loop with what it waits for
  - `laws`, `runs`: what holds of every poll, every response and every run
  - `seqs`, `text`: sequences and texts
- `app/` awaits: it runs the loop on a thread of its own, sends the requests,
  notifies the observers and listens for calls to poll.
- `tests/` run the library against stores, readers and updaters made for testing.

What is trusted:

- The texts that `std` writes for a quoted string and for a duration are named, not
  described. Of what `std` writes of a duration to a formatter nothing is claimed.
- Of the text that a status type writes for itself nothing is claimed, but its
  `Debug` is trusted to report no error.
