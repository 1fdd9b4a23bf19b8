//! The shell: everything the desktop draws that is not an app's window, and its wires.
pub mod answers;
pub mod app;
pub mod ask;
pub mod laws;
pub mod menu;
pub mod notes;
pub mod notify;
pub mod page;
pub mod prompts;
