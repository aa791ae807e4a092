//! The plan-editing core of an interactive design tool.
//!
//! A master plan and any number of project branches hold gestures: ordered
//! control points with an intent. Edits go to a project's ongoing step, are
//! committed into its undo history, and are previewed per observer. Observers
//! ask for updates relative to what they already know and get only what they
//! are missing.
pub mod geometry;
pub mod identity;
pub mod table;
pub mod gesture;
pub mod plan;
pub mod history;
pub mod result;
pub mod project;
pub mod interaction;
pub mod laws;
