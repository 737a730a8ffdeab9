# branchkit_stage_sdk

The stage-facing surface of the BranchKit pipeline runtime, as a Verus
library whose decisions carry proved contracts.

- `src/` — the verified library:
  - `events` — the typed event vocabulary (the types without floating
    point), the event-type tags, the `ext.<vendor>.<name>` namespace rule,
    and RFC 4122 v4 session-id minting.
  - `wire` — the framing rules on bytes: header line termination and
    trimming, the 16 MB payload cap, and the proof that a written frame
    reads back as its header and payload.
  - `credit` — the receiver-side credit granter and the proof that grants
    follow the configured cadence.
  - `stage` — the runtime's decisions: handshake first, initial windows,
    cadence grants, event routing, loop continuation, the stop listener.
  - `stage_log` — the `BKLOG1` diagnostic line format and ambient session.
  - `grammar_dag` — the float-free parts of the grammar DAG wire types.
- `app/` — the async transports, serde encodings (including the types that
  hold floating point), process-wide log state, signals and stdin listeners
  that perform what the library decides.
- `tests/` — tests of the library.
