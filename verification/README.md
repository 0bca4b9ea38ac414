# adesk

The logic of the ADesk agent and of its accessibility (text) view of a
window, written in Verus: every function in `src/` carries a contract that
Verus proves.

## Layout

- `src/` — the verified library.
  - Accessibility view: `model`, `role`, `source`, `registry`, `service`
    (projection of a backend tree onto wire nodes), `outline` (the text
    outline), `find`, `text_search`, `fixture` (the in-memory backend and its
    trimming to snapshot bounds), `a11y_error`.
  - AT-SPI backend: `dbus` (element addresses and D-Bus error classification),
    `correlate` (which accessible application and frame a window is),
    `atspi_map` (states, extents, values), `walk` (the bounded pre-order walk as
    a state machine, with the law that it keeps what a fixture snapshot keeps),
    `backend` (the connected and the `off` backends).
  - Agent: `decision`, `runtime`, `requests`, `context` (the bounded prompt
    context), `metrics`, `agent_loop` (the plan/act/observe decisions),
    `watch` (idle-listener bounds), `provider` (mock, dummy and configuration
    logic), `scenario`, `agent_error`.
  - Helpers: `chars`, `fmt`, `elide`.
- `tests/` — tests run against the compiled library.
- `app/` — the program around it: command line, D-Bus and socket I/O, async
  plumbing, HTTP providers, serde forms of the library's values, and the few
  places that compute with floats.
