//! What the bridge, and the ssh agent, say to drv-portal and hear back. The asker picks the
//! id; the answers carry it back.
use vstd::prelude::*;

pub use crate::pw::Device;

verus! {

pub const VERSION: u32 = 6;

#[derive(Debug)]
pub enum Kind {
    /// An existing file, read-only for the app.
    Open,
    /// A file to write, created if the person names a new one.
    Save { name: String },
}

/// What a cast shows: a whole screen by connector name, or one window by the compositor's id
/// for it. `T` is text.
#[derive(Debug)]
pub enum Source<T> {
    Screen(T),
    Window(u64),
}

impl Source<String> {
    /// The same source once more.
    pub fn copy(&self) -> (r: Source<String>)
        ensures
            r == *self,
    {
        match self {
            Source::Screen(name) => Source::Screen(name.clone()),
            Source::Window(id) => Source::Window(*id),
        }
    }
}

impl View for Source<String> {
    type V = Source<Seq<char>>;

    open spec fn view(&self) -> Source<Seq<char>> {
        match *self {
            Source::Screen(name) => Source::Screen(name@),
            Source::Window(id) => Source::Window(id),
        }
    }
}

/// How the app wants the pointer in a screencast.
#[derive(Clone, Copy, Debug, PartialEq, Eq, Structural)]
pub enum Cursor {
    Hidden,
    Embedded,
    Metadata,
}

#[derive(Debug)]
pub enum Request {
    Hello { version: u32 },
    /// Ask the person for a file for `app`, which runs as `uid`.
    Choose { id: u64, app: String, uid: u32, title: String, kind: Kind },
    /// Ask the person for a screen or a window to share with `app`. `Cast` answers when it
    /// streams; `Closed` follows when it ends.
    Cast {
        id: u64,
        app: String,
        uid: u32,
        cursor: Cursor,
        screens: bool,
        windows: bool,
        /// A token from an earlier `Cast` answer to this app.
        again: Option<String>,
    },
    /// Ask the person to let `app` use `device`. `Granted` answers; `Closed` follows when the
    /// person revokes it.
    Grant { id: u64, app: String, uid: u32, device: Device },
    /// The ssh agent wants the authenticator's PIN for `app`'s use of it.
    Pin { id: u64, app: String, uid: u32, prompt: String },
    /// The ssh agent waits for a touch on the authenticator for `app`.
    Touch { id: u64, app: String, uid: u32, prompt: String },
    /// The app withdrew the request, or closed its session.
    Cancel { id: u64 },
    /// The app is gone: what the person allowed it ends with it.
    Forget { app: String, uid: u32 },
}

#[derive(Debug)]
pub enum Response {
    Hello { version: u32 },
    /// The pick, as paths under the documents mount that `uid` alone may open.
    Chosen { id: u64, paths: Vec<String> },
    /// The source streams on this PipeWire node.
    Cast { id: u64, node_id: u32, source: Source<String>, width: i32, height: i32, token: String },
    /// The person allows the device, until `Closed`.
    Granted { id: u64 },
    /// The PIN the person typed for the agent.
    Pin { id: u64, pin: String },
    /// The cast ended, or the person revoked the device.
    Closed { id: u64 },
    Cancelled { id: u64 },
    Failed { id: u64, reason: String },
}

} // verus!
