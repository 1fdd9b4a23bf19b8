//! The person's side of the portals.
pub mod app;
pub mod compositor;
pub mod picking;
pub mod protocol;
