# hydrocomplete_dag

The model behind a visual hydrology / hydraulics / water-quality DAG editor
that runs in the browser: a node catalog, a directed acyclic graph of nodes
wired port to port, a pointer-gesture state machine with selection, a bounded
undo/redo history, and ready-made model templates. The library is written in
Verus and every function in it is verified against its contract.

## Layout

- `src/graph.rs` — reachability over edges and acyclicity, with the lemmas
  the graph operations rely on.
- `src/dag.rs` — `DagModel`: nodes and edges, sequential ids, edge
  acceptance (no self loop, duplicate, occupied input port or cycle),
  removal, topological order, and its well-formedness invariant.
- `src/nodes.rs` — the twenty node kinds, their categories, ports and
  configuration fields.
- `src/interaction.rs` — selection and the gesture machine: what a press
  or release does, given what lies under the pointer.
- `src/history.rs` — undo/redo of model snapshots, at most fifty deep.
- `src/templates.rs` — the template catalog and how a template is built.
- `src/chart.rs` — which result chart a node kind gets.
- `app/` — the `wasm_bindgen` editor around the library: canvas drawing,
  hit testing and camera (floating point), JSON (serde) and chart drawing.
- `tests/` — tests of the library.
