//! What confining a process takes from the kernel, as plans over plain values.
pub mod app_places;
pub mod approot;
pub mod creds;
pub mod denied;
pub mod fds;
pub mod filters;
pub mod handover;
pub mod host;
pub mod landlock;
pub mod mounts;
pub mod path;
pub mod root;
pub mod sandbox;
pub mod sandbox_root;
pub mod seccomp;
pub mod seccomp_calls;
pub mod staging;
