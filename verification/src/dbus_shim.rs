//! The desktop's D-Bus names, for the shim and the probes that exercise it.
pub use crate::bridge::bus::{
    sender_component, NOTIFICATIONS_NAME, NOTIFICATIONS_PATH, PORTAL_NAME, PORTAL_PATH,
};
