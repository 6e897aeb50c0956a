# transcript_pump

Drains the output of a coding agent into a canonical transcript, byte for byte, and keeps a
durable status document beside it that accounts for every status ever submitted.

- `src/` is the library: every decision the pump makes, with contracts proved by Verus. It
  performs no I/O and starts no thread.
- `app/` runs it: threads, files, the clock, and the JSON form of the status document.
- `tests/` drives the library with in-memory streams and stores.

## How the library is laid out

| Module | What it decides |
| --- | --- |
| `text` | how an error message is capped without splitting a code point |
| `status`, `error`, `fault`, `config` | documents, typed failures, the first-fault latch, thresholds |
| `preview` | record boundaries, bounded previews, counters |
| `capture` | one capture, as a machine from event to action |
| `ack`, `coordinator`, `coordinator_model`, `coordinator_invariant` | the state that submitters and the status worker share |
| `worker` | the status worker, as a machine from event to action |
| `drain` | from a capture's result to the pump's outcome |
| `*_laws` | what holds of each of these as a whole |

## What is trusted

One function of the standard library: `std::path::Path::with_file_name`, of which only what
every machine's path syntax agrees on is stated.
