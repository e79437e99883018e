# basecoat

The core of a basecoat-style UI component library, verified with Verus.

- `src/components/` renders every component to an HTML string; each
  renderer's contract states the exact markup it produces.
- `src/controllers/` holds the decisions of the browser controllers
  (roving tabindex, combobox filtering and highlighting, select, tabs,
  toasts, sidebar, dialog focus trap, dismissal, hydration) as functions
  from plain state and events to the next state and the action to take.
- `src/props_derive.rs` decides what the `#[prop(..)]` markers of the props
  derive mean for each field.
- `src/text.rs` and `src/markup.rs` are the string and attribute helpers
  they share: escaping, trimming, splitting, number formatting and parsing.
- `app/` is the unverified glue: the DOM wiring of each controller for the
  browser and the `syn`/`quote` front end of the derive macro.
- `tests/` runs the library on concrete inputs.
