//! Environment names the pieces agree on.
use vstd::prelude::*;

verus! {

/// Path of the identity daemon's socket.
pub const IDENTITY_SOCKET: &'static str = "DRV_IDENTITY_SOCKET";

/// Path of drv-appd's socket.
pub const APPD_SOCKET: &'static str = "DRV_APPD_SOCKET";

/// Path the compositor listens on for apps.
pub const APPS_SOCKET: &'static str = "DRV_APPS_SOCKET";

} // verus!
