//! The logic of a small desktop of separate processes: policy, launching, confinement,
//! the portals, the seat and the shell, each as verified rules over plain values.
pub mod agent;
pub mod appd;
pub mod assoc;
pub mod attempts;
pub mod auth;
pub mod bridge;
pub mod cast;
pub mod chooser;
pub mod cli;
pub mod dbus_shim;
pub mod entries;
pub mod files;
pub mod forker;
pub mod identity;
pub mod init;
pub mod keys;
pub mod launching;
pub mod lock;
pub mod manifest;
pub mod names;
pub mod order;
pub mod os;
pub mod policy;
pub mod portal;
pub mod pw;
pub mod seat;
pub mod shell;
pub mod table;
pub mod text;
pub mod utf8;
pub mod views;
pub mod wires;
