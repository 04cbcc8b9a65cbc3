//! A 9x9 Sudoku board with editability-guarded edits and a duplicate check,
//! plus the key-driven session state that a terminal front end drives.
pub mod model;
pub mod session;
