# panesmith

Terminal panes for text user interfaces: child processes on PTYs, their screens
and transcripts, and fullscreen attach to the real terminal. The library in
`src/` is verified with Verus. It performs no I/O of its own.

## Layout

- `src/pane.rs`, `src/command.rs`, `src/event.rs`, `src/error.rs`,
  `src/surface.rs`: the vocabulary.
- `src/input.rs`, `src/encoder.rs`, `src/detach.rs`, `src/detach_encoding.rs`:
  host input, terminal bytes, detach chords.
- `src/mode_overlay.rs`, `src/viewport.rs`, `src/attach_viewport.rs`,
  `src/transcript.rs`, `src/reader.rs`, `src/repro.rs`: what is read out of
  child output, and what of it is shown and kept.
- `src/pty.rs`, `src/child.rs`: frame queues, retried writes, command lines,
  environments, and the escalation from a polite to a forced end.
- `src/attach_plan.rs`, `src/attach_loop.rs`, `src/session.rs`,
  `src/test_harness.rs`: an attach as a row of requests and replies.
- `src/crossterm_host.rs`, `src/crossterm_pane_host.rs`, `src/suspension.rs`:
  suspending and restoring the host terminal.
- `src/input_plan.rs`, `src/input_run.rs`: input transactions.
- `src/sink.rs`, `src/calls.rs`: what sinks, surfaces and processes are asked,
  what they answer, and how one call leads to the next.
- `src/output_flow.rs`, `src/attach_account.rs`, `src/session_output.rs`: the way
  of child output to the surface and the transcript.
- `src/pane_core.rs`, `src/pane_runtime.rs`, `src/manager.rs`, `src/manager/`:
  the books of a pane, a pane with its process and screen, and the manager.
- `tests/`: scenarios on concrete values.
- `app/`: the portable PTY backend, raw stdio, the system clock, the loops that
  wait, `crossterm` events and serializable copies of the library's types.

## Conventions

Each type has a view, mostly of plain values, and contracts speak of views. What
is asked of a caller's own types is remembered in ghost state, with the answers,
and each call is made on what the call before it left. A loop that waits for the
outside world is a state machine: a request, a reply, and the next request. Proof
functions named `law_*` state what holds of the library as a whole.
