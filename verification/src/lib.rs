//! rnano: the editing core of a small nano-like terminal text editor.
pub mod history;
pub mod text;
pub mod lines;
pub mod buffer;
pub mod config;
pub mod display;
pub mod search;
pub mod style;
pub mod highlight;
pub mod keys;
pub mod editor;
pub mod edit;
pub mod prompt;
pub mod save;
pub mod session;
pub mod input;
pub mod view;
pub mod segments;
pub mod laws;
