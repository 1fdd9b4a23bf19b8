//! drv-cast's line to the compositor: casts by our own ids, after the person has consented.
use vstd::prelude::*;

pub use super::wire::{Cursor, Source};
use crate::views::views;

verus! {

pub const VERSION: u32 = 5;

#[derive(Debug)]
pub struct Output {
    /// The connector name, what `Source::Screen` names.
    pub name: String,
    pub make: String,
    pub model: String,
    /// Logical size; zero while the output is off.
    pub width: i32,
    pub height: i32,
}

#[derive(Debug)]
pub struct Window {
    /// The compositor's id for the window, what `Source::Window` names.
    pub id: u64,
    /// What the window calls itself: the app chose it.
    pub title: String,
    /// The manifest name of the app whose window it is.
    pub app: String,
}

/// To the compositor. `T` is text, `L` a list of texts.
#[derive(Debug)]
pub enum ToCompositor<T, L> {
    Hello { version: u32 },
    /// Answered with `Outputs`.
    Outputs,
    /// Answered with `Windows`.
    Windows,
    /// Stream this source; `Started` names the node, or `Stopped` says it could not.
    Start { cast: u64, source: Source<T>, cursor: Cursor },
    Stop { cast: u64 },
    /// Which apps hold the microphone and the camera right now, for the on-screen indicator.
    Devices { mic: L, camera: L },
}

pub type ToldView = ToCompositor<Seq<char>, Seq<Seq<char>>>;

impl View for ToCompositor<String, Vec<String>> {
    type V = ToldView;

    open spec fn view(&self) -> ToldView {
        match *self {
            ToCompositor::Hello { version } => ToCompositor::Hello { version },
            ToCompositor::Outputs => ToCompositor::Outputs,
            ToCompositor::Windows => ToCompositor::Windows,
            ToCompositor::Start { cast, source, cursor } => ToCompositor::Start {
                cast,
                source: source@,
                cursor,
            },
            ToCompositor::Stop { cast } => ToCompositor::Stop { cast },
            ToCompositor::Devices { mic, camera } => ToCompositor::Devices {
                mic: views(mic@),
                camera: views(camera@),
            },
        }
    }
}

#[derive(Debug)]
pub enum FromCompositor {
    Hello { version: u32 },
    Outputs(Vec<Output>),
    Windows(Vec<Window>),
    /// The stream is up, `width` by `height` pixels.
    Started { cast: u64, node_id: u32, width: i32, height: i32 },
    /// The cast is gone, whoever ended it. Also the answer to a `Start` that failed.
    Stopped { cast: u64 },
    /// The person's kill switch: every device they allowed is revoked.
    Revoke,
}

} // verus!
