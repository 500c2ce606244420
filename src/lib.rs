//! A console logging backend: target-prefix exclusion, fixed-width level
//! labels, elapsed-time stamps and optional ANSI coloring.
pub mod backend;
pub mod format;
pub mod level;
pub mod text;
