//! drv-portal's line to the compositor: casts by our own ids, after the person has consented.
//! The compositor trusts the line: only the portal holds it.
use vstd::prelude::*;

pub use super::protocol::Cursor;
pub use crate::cast::compositor::Output;

verus! {

pub const VERSION: u32 = 1;

/// To the compositor. `T` is text.
#[derive(Debug)]
pub enum ToCompositor<T> {
    Hello { version: u32 },
    /// Answered with `Outputs`.
    Outputs,
    /// Stream this output; `Started` names the node, or `Stopped` says it could not.
    Start { cast: u64, output: T, cursor: Cursor },
    Stop { cast: u64 },
}

impl View for ToCompositor<String> {
    type V = ToCompositor<Seq<char>>;

    open spec fn view(&self) -> ToCompositor<Seq<char>> {
        match *self {
            ToCompositor::Hello { version } => ToCompositor::Hello { version },
            ToCompositor::Outputs => ToCompositor::Outputs,
            ToCompositor::Start { cast, output, cursor } => ToCompositor::Start {
                cast,
                output: output@,
                cursor,
            },
            ToCompositor::Stop { cast } => ToCompositor::Stop { cast },
        }
    }
}

#[derive(Debug)]
pub enum ToPortal {
    Hello { version: u32 },
    Outputs(Vec<Output>),
    Started { cast: u64, node_id: u32 },
    /// The cast is gone, whoever ended it. Also the answer to a `Start` that failed.
    Stopped { cast: u64 },
}

} // verus!
