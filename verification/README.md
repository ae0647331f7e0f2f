# loadloom

The verified core of LoadLoom, a desktop console that loads an HTTP target,
watches the machine's network adapters and drives a BitTorrent sidecar.

- `src/` is the library, written and proved with Verus. It holds the
  decisions: admission of a target, the run gate and its generations, worker
  steps and backoff, failure throttling, the error panel, log formatting and
  rotation, NIC classification, listing order, episode tracking and findings,
  the NIC report, and the sidecar's line protocol.
- `tests/` runs the library on concrete values.
- `app/` is plain Rust around it: Tokio and reqwest, the Win32 interface
  table, the sidecar process, the log file, floating-point rates and the
  serde wire types. It calls the library for every decision.
