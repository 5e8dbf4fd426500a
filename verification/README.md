# ripr_reports

The decision logic behind ripr's release and review reports, verified with
Verus: release readiness gates, the negative release corpus, release scope,
release control, the release denominator ledger and its adjudication, SARIF
policy, review comments, recommendation calibration, reverse authorization
and the Rust repair-trust scorecard.

- `src/` is the library. Every public function carries a contract over
  spec functions and views, and the laws the reports promise stand as public
  proof functions named `law_*`.
- `tests/` runs the library on concrete inputs.
- `app/` holds the `cargo xtask` commands: file and process plumbing that
  reads inputs, turns JSON into the library's records (and records back
  into JSON), calls the library and writes what it decides.

Outside calls (SHA-256 through `sha2`, JSON edits of artifacts through
`serde_json`, and a few std functions such as path components and integer
parsing) go through small trusted wrappers whose doc
comments say what is assumed of them.
