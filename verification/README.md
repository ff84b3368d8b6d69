# script

Verified core of the Script language tooling, written in Verus.

## Layout

- `src/` — the verified library.
  - `parser/token.rs`, `parser/parser.rs`: tokens, and the parser from
    tokens to syntax tree. The whole grammar it follows (expressions,
    statements, blocks, declarations, imports and exports) is stated as
    spec functions over the tokens; each parsing function's contract says
    that it returns the tree of the shape the grammar gives, and fails
    exactly where the grammar gives none.
  - `parser/ast.rs`: the syntax tree and its rendering as source text.
  - `runtime/closure/`: closures (plain and optimized), function-name
    interning, capture storage, the binary, compact and JSON serialization
    formats with their round-trip laws, performance counters and the closure
    debugger.
  - `runtime/async_runtime*.rs`: the decisions of the two async executors
    (which task runs next, what a poll changes, timers, joins, resource
    limits), as state machines driven from outside.
  - `runtime/async_resource_limits.rs`: the accounting of tasks, memory
    and timeouts against configured limits.
  - `runtime/async_ffi_secure.rs`: the pointer registry that guards the C
    entry points.
  - `runtime/async_performance_optimizer.rs`: object pool, adaptive
    scheduler, batch processor, expiring cache and the optimized executor.
  - `repl/`: command history, session state and session files, module
    search and exports, line input and shell commands.
  - `namemap.rs`, `idmap.rs`, `text.rs`: insertion-ordered maps and text
    helpers used throughout.
- `app/` — the code around the library: process-wide state behind locks,
  files, threads, clocks and wakers, the C entry points, the Tokio bridge,
  and the figures computed in floating point.
- `tests/` — tests of the library.

Time is passed to the library as nanoseconds on a clock chosen by the
caller, so every decision that depends on time is verified for every clock
reading.
