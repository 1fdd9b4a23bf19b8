//! drv-files: the apps that are connected, and the dialogs they ask for.
use vstd::prelude::*;

use super::wire::{FromFiles, Kind, ToFiles, VERSION};
use crate::assoc::{del, get, has_key, holds, put, set_row, take_row, value};
use crate::chooser::{turn, Act, Front, FrontView, Pending, Turn, What};
use crate::views::{group_views, views};

verus! {

/// An app's connection. `T` is text.
#[derive(Debug)]
pub struct Conn<T> {
    pub app: T,
    pub uid: u32,
}

impl View for Conn<String> {
    type V = Conn<Seq<char>>;

    open spec fn view(&self) -> Conn<Seq<char>> {
        Conn { app: self.app@, uid: self.uid }
    }
}

/// The apps that are connected, and the dialogs.
#[derive(Debug)]
pub struct Files {
    pub conns: Vec<(u64, Conn<String>)>,
    pub desk: Front,
}

/// The apps that are connected, by value.
pub open spec fn conns_of(files: Files) -> Seq<(u64, Conn<Seq<char>>)> {
    views(files.conns@)
}

/// What an app asks for, as the dialogs have it.
pub open spec fn what_of(kind: Kind) -> What<Seq<char>> {
    match kind {
        Kind::Open => What::Open,
        Kind::Save { name } => What::Save { name: name@ },
    }
}

/// What an app says comes to. A second hello says nothing.
pub open spec fn heard(
    conns: Seq<(u64, Conn<Seq<char>>)>,
    desk: FrontView,
    conn: u64,
    msg: ToFiles,
) -> Turn {
    match msg {
        ToFiles::Hello { .. } => Turn::start(desk),
        ToFiles::Choose { req, kind } => match get(conns, conn) {
            Some(c) => Turn::start(desk).ask(
                Pending {
                    who: (conn, req),
                    app: c.app,
                    uid: c.uid,
                    title: Seq::empty(),
                    what: what_of(kind),
                },
            ),
            None => Turn::start(desk),
        },
        ToFiles::Cancel { req } => Turn::start(desk).withdraw(conn, Some(req)),
    }
}

/// Whether an app's first word will do: a hello of our version.
pub fn greeted(msg: &ToFiles) -> (r: bool)
    ensures
        r == (*msg == ToFiles::Hello { version: VERSION }),
{
    match msg {
        ToFiles::Hello { version } => *version == VERSION,
        _ => false,
    }
}

impl Files {
    /// Nobody connected, nothing asked.
    pub fn new() -> (r: Files)
        ensures
            conns_of(r) == Seq::<(u64, Conn<Seq<char>>)>::empty(),
            r.desk@.queue.len() == 0,
            r.desk@.dialog is None,
            r.desk@.screens.len() == 0,
    {
        broadcast use group_views;

        Files { conns: Vec::new(), desk: Front::new() }
    }

    /// An app connected.
    pub fn connected(&mut self, conn: u64, app: String, uid: u32)
        ensures
            conns_of(*final(self)) == put(conns_of(*old(self)), conn, Conn { app: app@, uid }),
            final(self).desk == old(self).desk,
    {
        set_row(&mut self.conns, conn, Conn { app, uid });
    }

    /// An app's connection went away: its questions go with it, and a dialog up for it comes
    /// down.
    pub fn gone(&mut self, conn: u64) -> (out: Vec<Act<String>>)
        ensures
            conns_of(*final(self)) == del(conns_of(*old(self)), conn),
            turn(final(self).desk, out) == Turn::start(old(self).desk@).withdraw(conn, None),
    {
        broadcast use group_views;

        let mut out: Vec<Act<String>> = Vec::new();
        let _ = take_row(&mut self.conns, &conn);
        self.desk.withdraw(conn, None, &mut out);
        out
    }

    /// What an app says comes to.
    pub fn said(&mut self, conn: u64, msg: ToFiles) -> (out: Vec<Act<String>>)
        ensures
            conns_of(*final(self)) == conns_of(*old(self)),
            turn(final(self).desk, out) == heard(
                conns_of(*old(self)),
                old(self).desk@,
                conn,
                msg,
            ),
    {
        broadcast use group_views;

        let mut out: Vec<Act<String>> = Vec::new();
        match msg {
            ToFiles::Hello { .. } => {},
            ToFiles::Choose { req, kind } => {
                let (app, uid) = match value(&self.conns, &conn) {
                    Some(c) => (c.app.clone(), c.uid),
                    None => return out,
                };
                let what = match kind {
                    Kind::Open => What::Open,
                    Kind::Save { name } => What::Save { name },
                };
                self.desk.ask(
                    Pending { who: (conn, req), app, uid, title: String::new(), what },
                    &mut out,
                );
            },
            ToFiles::Cancel { req } => self.desk.withdraw(conn, Some(req), &mut out),
        }
        out
    }

    /// What an app hears, and on which connection, if it is still there.
    pub fn answer(&self, act: &Act<String>) -> (r: Option<(u64, FromFiles)>)
        ensures
            match act@ {
                Act::Chosen { who, path } => if has_key(conns_of(*self), who.0) {
                    &&& r is Some
                    &&& (r->0).0 == who.0
                    &&& (r->0).1 is Chosen
                    &&& (r->0).1->Chosen_req == who.1
                    &&& views((r->0).1->paths@) == seq![path]
                } else {
                    r is None
                },
                Act::Cancelled { who } => if has_key(conns_of(*self), who.0) {
                    r == Some((who.0, FromFiles::Cancelled { req: who.1 }))
                } else {
                    r is None
                },
                _ => r is None,
            },
    {
        broadcast use group_views;

        match act {
            Act::Chosen { who, path } => {
                if !holds(&self.conns, &who.0) {
                    return None;
                }
                let mut paths: Vec<String> = Vec::new();
                paths.push(path.clone());
                assert(views(paths@) =~= seq![path@]);
                Some((who.0, FromFiles::Chosen { req: who.1, paths }))
            },
            Act::Cancelled { who } => {
                if !holds(&self.conns, &who.0) {
                    return None;
                }
                Some((who.0, FromFiles::Cancelled { req: who.1 }))
            },
            _ => None,
        }
    }
}

} // verus!
