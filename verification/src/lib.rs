//! A terminal slide deck presenter for Markdown decks: parsing, rendering
//! and presentation state, with their contracts and properties proved.
pub mod text;
pub mod slide;
pub mod content;
pub mod markdown;
pub mod directives;
pub mod parser;
pub mod deck_laws;
pub mod style;
pub mod render;
pub mod session;
pub mod ipc;
pub mod layout_laws;
pub mod session_laws;
pub mod format_laws;
