//! A modal text editor core: a line buffer with tab-aware cursor arithmetic,
//! a vi-style key interpreter, and a double-buffered cell renderer.
pub mod moves;
pub mod text;
pub mod editor;
pub mod vertical;
pub mod edits;
pub mod words;
pub mod yank;
pub mod status;
pub mod render;
pub mod styles;
pub mod keys;
pub mod pane;
pub mod draw;
pub mod components;
pub mod client;
pub mod line;
