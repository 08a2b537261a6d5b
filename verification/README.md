# scatterbrain

A hierarchical planning tool: a plan is a tree of tasks organised by levels
of abstraction, with a cursor that walks the tree, leases that guard task
completion, notes on tasks, and a bounded log of recent transitions.

## Layout

- `src/` — the library, written in Verus and verified:
  - `task.rs`, `plan.rs`, `levels.rs`, `lease.rs`, `history.rs`: the data
    model and its mathematical views;
  - `context.rs`: the state of one plan and every operation on it, each with
    an exact contract over `ContextView`;
  - `plans.rs`: the set of plans, keyed by id;
  - `distilled.rs`: the summary handed back with every response;
  - `index.rs`: parsing of comma-separated index paths;
  - `report.rs`, `ui.rs`, `guide.rs`: the text and HTML rendered from the
    state;
  - `markup.rs`: the count of list items in the task tree's HTML;
  - `api.rs`: the replies of the HTTP service and the reading of them;
  - `example.rs`: the example plan;
  - `laws.rs`: properties relating the operations to one another;
  - `external.rs`: the calls into `rand`, `chrono` and `colored`, with the
    contracts they are trusted to meet.
- `app/` — the command line, the HTTP server, the HTTP client and the MCP
  server: argument handling, I/O, locking and serialisation around the
  library.
- `tests/` — tests of the library on concrete values.

## Leases

The lease bound to a task is looked up by the task's index path. The
library keeps these bindings in `LeaseTable` (`src/lease.rs`): a vector of
(path, lease) pairs with distinct paths as its invariant, whose view is a
`Map<Seq<usize>, u8>`. A `std::collections::HashMap` keyed by `Vec<usize>`
compiles under Verus, but vstd specifies a hash map only for keys whose
hashing it models, such as integers: with a `Vec<usize>` key nothing about
the map's contents can be proved, not even that one insertion into an empty
map gives a map of one entry.
