# ratatui_crossterm

The logic of the Crossterm backend for Ratatui, with its contracts proved: what the backend writes to
draw cells, to move, hide and show the cursor, to clear, to append lines and to scroll a region,
and how Ratatui's colors, modifiers and styles convert to Crossterm's and back.

- `src/` is the verified library. Each operation returns the bytes to write; the commands that
  Crossterm itself writes out (the cursor, clear, print and color commands) are reached through
  a few trusted wrappers in `src/commands.rs`.
  `src/render.rs` models a terminal and proves that drawing shows every cell where it belongs,
  in the style it asks for.
- `app/` is the backend that Ratatui drives: it implements `ratatui_core::backend::Backend` and
  `std::io::Write`, writes the library's bytes to its writer, queries the terminal, and converts
  between `ratatui_core`'s and `crossterm`'s types and the library's plain copies of them.
- `tests/` runs the library against the real Crossterm output.
