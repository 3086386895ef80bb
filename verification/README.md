# talos_tui

The verified core of the Talos terminal interface, written in Verus.

- `src/` — the library: layout budgets, width-aware wrapping and truncation,
  transcript projection and scroll anchoring, scrollback insertion with
  failure recovery, composer editing and history, key routing, pickers and
  panels and their rows, frame planning, the output-event reducer that
  opens and closes transcript streams, conversation replay into prefixed
  scrollback lines, the status line,
  the terminal lifecycle, and formatting helpers.
  Every function states its behaviour in `requires`/`ensures`; the public
  `proof fn`s state properties that span functions.
- `tests/` — executable tests of the library.
- `app/` — the crossterm terminal, clipboard process, colour conversion and
  the floating-point formatting of token counts and costs.
