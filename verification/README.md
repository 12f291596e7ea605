# static_runtime

The core of a modular realtime signal runtime, written in Verus: the
functions in `src/` are verified, and their contracts state what they do
except where it rests on shared atomics (clocks, statistics) or on the
behavior of user-implemented traits.

- `src/addon` — addon manifests and their validation, parameter schemas,
  package entry names, the addon registry and pipeline node removal.
- `src/behavior` — the behavior contract (nodes, contexts, commands), the
  scheduler with its minimal-diff reload, the behavior registry and host, the
  native behavior bridge state, and the face tracker's integer core (grid
  geometry and the largest bright component).
- `src/runner` — runner lifecycle typestates, restart supervision, the host
  data plane (signals, resources, frames, metrics, workers), the native
  control protocol, its loopback transport and the process supervisor.
- `src/signal.rs`, `src/native` — the signal schema and bridge; the native
  library handshake and lifecycle.

`app/` is the program around the library: file and archive I/O, TOML
parsing, dynamic loading, child processes, threads, Landlock confinement and
the floating-point parts of the tracker and of parameter validation.
`tests/` exercise the library through its public interface.
