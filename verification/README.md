# nterm

The verified core of NTerm, a tabbed terminal emulator whose tabs hold
tmux-style trees of split panes. The library decides; the window program
applies the decisions to GTK and VTE widgets.

Layout:

- `src/` — the library, verified with Verus.
  - `ui/pane.rs` — the pane tree of a tab (leaves are terminals, inner
    nodes are split containers), its walks, splitting and closing, and the
    laws that relate them (closing a freshly split pane undoes the split,
    splitting adds exactly one pane, closing removes exactly one).
  - `ui/tabs.rs` — the tabs of the window, tab navigation with wrap-around.
  - `pane_tree.rs`, `ui/focus.rs` — rectangles and directional focus.
  - `palette.rs`, `config.rs` — colour themes, `#rrggbb` parsing, and
    configuration defaults.
  - `strings.rs`, `ui/leaf.rs`, `ui/process.rs`, `explosion.rs` — user-facing
    text, link targets, foreground-program detection, and the random
    generator of the bell animation.
- `tests/` — tests of the library.
- `app/` — the GTK program: widgets, configuration file I/O, the bell's
  particle animation.
