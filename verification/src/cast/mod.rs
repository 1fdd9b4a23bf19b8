//! Screen sharing, cameras and microphones: what apps ask, what the person says, what the
//! compositor streams.
pub mod compositor;
pub mod laws;
pub mod sharing;
pub mod state;
pub mod wire;
