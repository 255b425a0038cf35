# blockuntu

The verified core of BlocKuntu, a local focus blocker: the parts of its
privileged daemon and of its browser native messaging host that decide and
compute, with their behaviour stated in Verus contracts and proved.

- `src/` — the library. Among other things: the native messaging frame
  format and the Snap bridge header; the conversion between the browsers'
  legacy messages and the daemon's JSON-RPC; the managed block of the hosts
  file; the Chromium-family and Gecko-family browser policy documents;
  private-window settings; protected-access and Tier 1 edit rules; strict
  mode and extension heartbeat health; process identification from `/proc`;
  notification preferences, start/end announcements and allowance
  warnings; policy imports, site-list and application-rule saves, schedule
  targets, Detox requests and the uninstall handoff; the clock guard's
  tamper decisions; the kill plan of a process scan; the daemon's
  JSON-RPC method table and responses; event-log summaries.
- `app/` — the native messaging host program and the file, process and
  socket input and output around the library's plans.
- `tests/` — tests that run the library with its outside crates linked.

The library calls serde_json, sha2 and chrono through small trusted
wrappers whose contracts say what those crates promise.
