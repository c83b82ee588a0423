# ferrous-di

A dependency injection container whose rules are stated as contracts and proved with Verus.

## Layout

- `src/` — the verified library: keys and their order, the registry, the resolution
  rules (singleton, scoped, transient, multi-bindings), circular-resolution detection,
  disposal order, labeled scopes, options, decorators and aspects, metrics and health,
  observers, performance caches and pools, lifecycle and asynchronous resolution rules,
  tool discovery, tenant extraction, graph export (DOT, Mermaid) and graph analysis
  (breadth-first depths, depth-first cycle search, tree text).
- `app/` — the runtime around the library: type-erased instances and factories,
  providers and scopes behind locks, asynchronous factories and lifecycle hooks,
  web integration, serialization, configuration sources, and the reports that use
  floating-point numbers.
- `tests/` — tests of the library on concrete values.

Outside crates are called from `src/` through small trusted wrappers whose contracts
state only what the called function's documentation promises; each wrapper's doc
comment names the function it calls.
