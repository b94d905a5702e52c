# mosaic

The core of the Mosaic assistant control plane, written in Verus with its
behaviour stated in contracts and proved.

- `src/` is the verified library:
  - `channels/`: channel configuration, endpoint rules, message rendering,
    delivery retries, idempotency, event summaries and replay planning;
  - `agents/`: agent definitions, routes, runtime resolution and the turn
    decisions of the agent loop;
  - `automation/`: hooks, cron jobs, webhooks, their run logs and replays;
  - `plugins/`: plugin state, resource limits, sandbox policy and hook runs;
  - `cli/`: the decisions behind the command-line tools (configuration,
    models, browser visits, QR codes, devices and pairing, doctor checks);
  - `desktop.rs`: the desktop shell snapshot.
  Laws that relate several operations are public proof functions, in files
  named `laws.rs` and beside the functions they speak of.
- `app/` is the I/O around the library: files, the environment, HTTP,
  child processes, DNS and image output.
- `tests/` runs the library on concrete values.

Calls into std and outside crates (URL parsing, lower-casing, QR encoding,
UUIDs, the clock) go through a few small wrappers whose contracts state what
those crates document.
