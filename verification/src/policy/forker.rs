//! What drv-appd asks of drv-forker.
use vstd::prelude::*;

verus! {

/// An app, as far as the forker is concerned: the UID, the mounts that depend on the manifest
/// and the command.
#[derive(Debug)]
pub struct Launch {
    pub uid: u32,
    /// Supplementary group names.
    pub groups: Vec<String>,
    /// `argv[0]` is looked up in `PATH` from `env`.
    pub argv: Vec<String>,
    /// The child's whole environment.
    pub env: Vec<(String, String)>,
    /// Keep the host network. Otherwise the child gets a new, empty network namespace.
    pub network: bool,
    /// The render node and the host's view of it.
    pub gpu: bool,
    /// The nix daemon's socket directory, at its own path.
    pub nix: bool,
    /// Extra `/run` entries for this app.
    pub expose: Vec<String>,
    /// Folders of the person's files, by their path below the tree.
    pub folders: Vec<String>,
}

#[derive(Debug)]
pub enum Request {
    Launch(Launch),
}

#[derive(Debug)]
pub enum Response {
    Forked,
    Error(String),
}

/// What a launch comes to, by the forker's answer.
pub fn launched(response: Response) -> (r: Result<(), String>)
    ensures
        match response {
            Response::Forked => r == Ok::<(), String>(()),
            Response::Error(err) => r == Err::<(), String>(err),
        },
{
    match response {
        Response::Forked => Ok(()),
        Response::Error(err) => Err(err),
    }
}

} // verus!
