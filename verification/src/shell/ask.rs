//! A trusted service asks the person something through the shell. Ids are the asker's; each
//! line has its own.
use vstd::prelude::*;

use crate::views::views;

verus! {

pub const VERSION: u32 = 1;

/// One thing to pick from: `key` comes back; `name` and `detail` are shown. `T` is text.
#[derive(Debug)]
pub struct Choice<T> {
    pub key: T,
    pub name: T,
    pub detail: T,
}

impl View for Choice<String> {
    type V = Choice<Seq<char>>;

    open spec fn view(&self) -> Choice<Seq<char>> {
        Choice { key: self.key@, name: self.name@, detail: self.detail@ }
    }
}

/// A question. `T` is text, `C` a list of choices.
#[derive(Debug)]
pub enum Request<T, C> {
    Hello { version: u32 },
    /// "`app` wants to `what`", `note` under it: `Yes` or `Cancelled`.
    Confirm { id: u64, app: T, uid: u32, what: T, note: T },
    /// A secret typed at the shell, never in the app: `Secret` or `Cancelled`.
    Secret { id: u64, app: T, uid: u32, what: T, prompt: T },
    /// Shown until the asker's `Cancel`; `Cancelled` if the person refuses first.
    Touch { id: u64, app: T, uid: u32, what: T, prompt: T },
    /// One of `choices`: `Picked` or `Cancelled`. Sent again under the same id, it replaces the
    /// list while the dialog is up or waiting.
    Pick { id: u64, app: T, uid: u32, what: T, note: T, choices: C },
    /// The asker withdrew it: the dialog goes down, no answer.
    Cancel { id: u64 },
}

pub type Asked = Request<String, Vec<Choice<String>>>;

pub type AskedView = Request<Seq<char>, Seq<Choice<Seq<char>>>>;

impl View for Request<String, Vec<Choice<String>>> {
    type V = AskedView;

    open spec fn view(&self) -> AskedView {
        match *self {
            Request::Hello { version } => Request::Hello { version },
            Request::Confirm { id, app, uid, what, note } => Request::Confirm {
                id,
                app: app@,
                uid,
                what: what@,
                note: note@,
            },
            Request::Secret { id, app, uid, what, prompt } => Request::Secret {
                id,
                app: app@,
                uid,
                what: what@,
                prompt: prompt@,
            },
            Request::Touch { id, app, uid, what, prompt } => Request::Touch {
                id,
                app: app@,
                uid,
                what: what@,
                prompt: prompt@,
            },
            Request::Pick { id, app, uid, what, note, choices } => Request::Pick {
                id,
                app: app@,
                uid,
                what: what@,
                note: note@,
                choices: views(choices@),
            },
            Request::Cancel { id } => Request::Cancel { id },
        }
    }
}

/// An answer. `T` is text.
#[derive(Debug)]
pub enum Response<T> {
    Hello { version: u32 },
    Yes { id: u64 },
    Secret { id: u64, secret: T },
    Picked { id: u64, key: T },
    /// The person said no.
    Cancelled { id: u64 },
}

impl View for Response<String> {
    type V = Response<Seq<char>>;

    open spec fn view(&self) -> Response<Seq<char>> {
        match *self {
            Response::Hello { version } => Response::Hello { version },
            Response::Yes { id } => Response::Yes { id },
            Response::Secret { id, secret } => Response::Secret { id, secret: secret@ },
            Response::Picked { id, key } => Response::Picked { id, key: key@ },
            Response::Cancelled { id } => Response::Cancelled { id },
        }
    }
}

/// The question an answer is to.
pub open spec fn answered<T>(resp: Response<T>) -> Option<u64> {
    match resp {
        Response::Secret { id, .. } => Some(id),
        Response::Cancelled { id } => Some(id),
        Response::Yes { id } => Some(id),
        Response::Picked { id, .. } => Some(id),
        Response::Hello { .. } => None,
    }
}

/// The question an answer is to.
pub fn answered_id(resp: &Response<String>) -> (r: Option<u64>)
    ensures
        r == answered(*resp),
{
    match resp {
        Response::Secret { id, .. } => Some(*id),
        Response::Cancelled { id } => Some(*id),
        Response::Yes { id } => Some(*id),
        Response::Picked { id, .. } => Some(*id),
        Response::Hello { .. } => None,
    }
}

} // verus!
