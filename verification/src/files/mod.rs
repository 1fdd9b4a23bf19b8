//! The person's files: the chooser, and the documents mount it answers with.

pub mod app;
pub mod docs;
pub mod sight;
pub mod wire;
