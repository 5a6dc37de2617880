//! A verified core for a note-taking widget: an ordered list of notes keyed
//! by timestamp, a selection, and the operations that add, edit and delete
//! notes while keeping the selection consistent.

mod clock;
pub mod laws;
pub mod notes;
