# wrapper-supervisor

Supervises one worker process that decrypts media samples, and speaks the binary
framing between the supervisor, the worker and its clients. The rules and the byte
layouts are verified with Verus; the processes, pipes, clocks and the environment
are ordinary Rust around them.

## Layout

- `src/bytes.rs`, `src/text.rs`: big-endian integers, decimal numbers, UTF-8, white space.
- `src/error.rs`: what can go wrong, and how it reads.
- `src/protocol.rs`: the IPC frame and the decrypt frame.
- `src/layout.rs`, `src/batch.rs`: length tables, and the payloads made of them.
- `src/json.rs`, `src/reply.rs`: what the worker is asked and answers in JSON, through `serde_json`.
- `src/settings.rs`: what the environment sets.
- `src/stream.rs`: frames in pieces over pipes with a deadline.
- `src/worker.rs`: the record kept of the worker, and each decision about it.
- `src/supervision.rs`: what holds over whole requests and over startups in a row.
- `app/`: the worker process, its pipes and the threads that share it.

## Trust

The proofs rest on Verus, on its library, and on the contracts of the functions
marked `external_body` in `src/json.rs` and `src/text.rs`, each of which makes one
call into `serde_json` or the standard library.
