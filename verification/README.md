# jet_black

The verified core of a local agentic development control plane, written in
Verus. The functions in `src/` carry contracts that Verus proves, except
the small trusted wrappers around outside crates named below, whose
contracts are taken as given; the library's laws are public proof
functions.

## Layout

- `src/text.rs`, `src/time.rs`, `src/digest.rs`, `src/random.rs`: decimal
  and hexadecimal text, millisecond durations, SHA-256 digests, UUID text,
  and random bytes and version 4 UUIDs.
- `src/redaction.rs`, `src/artifacts.rs`: bounded secret redaction of
  captured process output, artifact quotas, segment manifests and verified
  reads.
- `src/store.rs`, `src/runs.rs`, `src/rows.rs`, `src/lease.rs`,
  `src/supervision.rs`, `src/finalization.rs`: the persistence rules:
  schema migration, versioned transitions, run approvals, row ownership,
  mutation leases, process supervision, recovery actions, findings, and
  changeset finalization records.
- `src/review.rs`: review requests, check evidence, findings and the order a
  review stops in.
- `src/protocol.rs`, `src/auth.rs`, `src/server.rs`: the wire envelopes, local
  session authentication, and the decisions of the HTTP and WebSocket
  servers.
- `app/`: some of the I/O edges that hand the library plain values: the
  schema migrations, artifact capture, retention, deletion and restart
  recovery on disk and in SQLite, the recovery lock, HTTP header reading,
  static asset directories, review tool discovery, and serialized forms.
  The HTTP server itself and the store's other SQLite operations are not
  part of this crate.
- `tests/`: executable tests of the library.

Calls into `sha2`, `uuid`, `base64`, `getrandom`, `subtle` and the system
clock stand behind small trusted wrappers whose contracts say what those
crates document.
