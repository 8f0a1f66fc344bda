# multistream_select

Protocol negotiation (multistream-select) for a dialer and a listener,
written as verified state machines.

- `src/protocol.rs`: versions, header lines, protocol names (a valid name
  starts with `/`), messages and errors.
- `src/io.rs`: the operations a negotiation asks of its message stream,
  the answers of the stream, and what a step yields.
- `src/dialer_select.rs`, `src/listener_select.rs`: the two state
  machines, each with its transition function as a spec, its well-formedness
  as a type invariant, and laws about its steps.
- `src/dialer_runs.rs`, `src/listener_runs.rs`: whole runs of each machine
  over a sequence of answers of its stream, and laws about them (messages
  sent and read, `Pending` answers, versions, invalid names).
- `src/negotiation.rs`: what a dialer and a listener that talk to each
  other agree on.
- `app/lib.rs`: futures that drive the machines over a `Sink`/`Stream` of
  messages.
