//! The core of a terminal file manager: navigation and selection over a
//! directory listing with per-directory memory, conflict-free naming, the
//! planning of copy, move, delete and rename with undo records, the reversal
//! of those records, and retries with elevated rights that validate the
//! credential before anything else runs.

pub mod names;
pub mod path;
pub mod selection;
pub mod memory;
pub mod ops;
pub mod explorer;
pub mod engine;
pub mod actions;
pub mod content;
pub mod escalation;
pub mod fsmodel;
pub mod dates;
pub mod tree;
pub mod textedit;
pub mod listing;
