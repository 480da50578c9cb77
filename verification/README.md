# compute_environment

The controller of a Compute node: environments hold projects, projects hold
workloads, and a daemon makes the node follow what control state desires.

The crate is in two parts.

- `src/` is the library: every decision the controller makes, as functions
  from what is known to what is done about it, verified with Verus. It does no
  I/O. Facts about the world (the time, what a port answers, what a process is
  called) are arguments; what is to be written, started, stopped or announced
  is the result.
- `app/` is the daemon around it: files, processes, sockets and the services a
  node talks to. It observes, asks the library, and carries out the answer.

## The library

| Modules | What they decide |
| --- | --- |
| `model`, `state`, `status`, `error`, `events` | the records of control state, their views, errors and the event log |
| `manifest`, `revisions`, `deploy`, `applications` | what is registered, released, promoted and rolled back |
| `desired`, `load`, `table`, `search`, `queries` | desired state, how it is read and looked up |
| `admission`, `ports`, `readiness`, `routing`, `release`, `results`, `transition`, `adopt`, `announce`, `receipts` | the steps of a release, from admission to its receipt |
| `cycle`, `reconcile`, `runtime`, `execute`, `prepare`, `lifecycle`, `supervision`, `processes`, `terminal` | a reconciliation cycle, and the units that run |
| `dataplane` | the supervisor: its registry of units and its routes |
| `network`, `network_runtime`, `domains`, `dns`, `certificates`, `tls` | routes, DNS records and certificates |
| `node`, `identity`, `operators`, `upgrade`, `views` | the node itself, its operators, its upgrades and what it shows |
| `text`, `time`, `digest`, `json`, `ids` | texts, times, digests and documents |

Times are nanoseconds since the Unix epoch, durations milliseconds.

What the library promises as a whole stands in its `law_` functions: that a
failed release spares what serves, that one deployment serves at a time, that
nothing acts on state that was not read, that a process identifier used again
is never signalled, and so on.

A few functions call other crates (`chrono`, `serde_json`, `sha2`) through
small trusted wrappers, each with the contract it is believed to meet.
