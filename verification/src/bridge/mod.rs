//! The bridge between apps' private buses and the person's portals.
pub mod access;
pub mod bus;
pub mod promises;
pub mod requests;
pub mod server;
pub mod sessions;
pub mod shim;
pub mod wire;
