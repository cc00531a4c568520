# flowtrace

Causal mapping of frontend/backend flows: a browser session is recorded as a
stream of events (navigation, user actions, network requests, console logs),
each network request is attributed to the user action that most likely caused
it, and the result is written as a correlated trace (JSON) and an HTML report.

## Layout

- `src/` — the verified library (Verus):
  - `text.rs`, `order.rs`: string and ordering building blocks with their
    specifications (escaping, decimal rendering, trimming, lexicographic order,
    stable insertion sort);
  - `domain/`: events, the correlated trace and the trace graph;
  - `correlator/`: ordering of the events, the timeline, request
    classification, canonical endpoints, candidate actions per request,
    correlation, burst sizes, route flows, the graph and the summary; and
    `laws.rs`, the laws of the graph (node ids, edge kinds) and the
    determinism of the graph, the route flows and the assembled trace;
  - `utils/`: URL path extraction, path tokens and their overlap, the UTC
    calendar text of a timestamp;
  - `report/`: the HTML timeline, graph and flow sections, and the report;
  - `cli/`, `collector/`, `app/`, `storage/`: command arguments, the collector
    command line and output lines, the decisions of a recording session, the
    JSON Lines reader's line selection, and the session's file layout
    (`reports/<session_id>/raw_trace.jsonl`, `correlated_trace.json`,
    `index.html`).
- `app/` — the program around the library: argument parsing, the clock, file
  and process I/O, JSON (de)serialisation, and the floating-point scoring of
  candidate actions.
- `tests/` — tests of the library on concrete values.
