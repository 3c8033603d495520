//! The logic of a Crossterm backend for Ratatui: what it writes to draw cells, to move, hide
//! and show the cursor, to clear the screen, to append lines and to scroll a region, and how
//! Ratatui's colors, modifiers and styles convert to Crossterm's and back.
//!
//! Every operation gives the bytes to write; the writer, the terminal and the outside types
//! stay with the caller.
pub mod ansi;
pub mod backend;
pub mod commands;
pub mod convert;
pub mod crossterm_types;
pub mod modifier_diff;
pub mod render;
pub mod style;

pub use backend::{ClearType, CrosstermBackend, Size, WindowSize};
pub use convert::{FromCrossterm, IntoCrossterm};
pub use crossterm_types::{
    ContentStyle, CrosstermAttribute, CrosstermAttributes, CrosstermClearType, CrosstermColor,
};
pub use modifier_diff::ModifierDiff;
pub use style::{Cell, Color, Modifier, Style};
