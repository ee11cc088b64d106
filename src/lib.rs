//! Completion engine of a language server that suggests labels, members,
//! milestones and quick actions of a remote issue tracker.

mod text;
pub mod candidate;
pub mod cursor;
pub mod completion;
pub mod documents;
pub mod remote;
pub mod state;
