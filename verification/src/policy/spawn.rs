//! What the identity daemon asks of the root spawner.
use vstd::prelude::*;

verus! {

/// Fd number the spawner hands its child for this channel.
pub const CHANNEL_FD: i32 = 4;

#[derive(Debug)]
pub struct Request {
    pub uid: u32,
    /// Supplementary group names. Each must be on the spawner's list.
    pub groups: Vec<String>,
    /// `argv[0]` is looked up in `PATH` from `env`.
    pub argv: Vec<String>,
    /// The child's whole environment, plus what the spawner sets.
    pub env: Vec<(String, String)>,
    /// Keep the host network.
    pub network: bool,
    /// Extra `/run` entries for this app.
    pub expose: Vec<String>,
    /// Hand the child a connection to `drv-authd` on its wire.
    pub auth: bool,
}

#[derive(Debug)]
pub enum Response {
    Forked { pid: u32 },
    Error(String),
}

/// What a fork comes to, by the spawner's answer.
pub fn forked(response: Response) -> (r: Result<u32, String>)
    ensures
        match response {
            Response::Forked { pid } => r == Ok::<u32, String>(pid),
            Response::Error(err) => r == Err::<u32, String>(err),
        },
{
    match response {
        Response::Forked { pid } => Ok(pid),
        Response::Error(err) => Err(err),
    }
}

} // verus!
