//! The first thing that runs as an app: links its files, starts it, and stays as its init.
use vstd::prelude::*;
use vstd::string::*;

use crate::os::path::{parent, parent_of, parents_begin_paths};
use crate::text::{is_plain_relative, join_path, path_under, plain_relative};
use crate::views::{group_views, views};

verus! {

/// What is done to the app's files, in order. `T` is text; what is `said` goes in front of the
/// error where it fails.
#[derive(Debug)]
pub enum Step<T> {
    /// The directory is made, with all above it.
    MakeDirs { path: T, said: T },
    /// A symbolic link; something already there is left alone.
    Link { target: T, link: T, said: T },
}

impl View for Step<String> {
    type V = Step<Seq<char>>;

    open spec fn view(&self) -> Step<Seq<char>> {
        match *self {
            Step::MakeDirs { path, said } => Step::MakeDirs { path: path@, said: said@ },
            Step::Link { target, link, said } => Step::Link {
                target: target@,
                link: link@,
                said: said@,
            },
        }
    }
}

/// A link is made: the directory it is in first, where it is in one.
pub open spec fn linked(target: Seq<char>, link: Seq<char>) -> Seq<Step<Seq<char>>> {
    let last = Step::Link { target, link, said: "link "@ + link };
    match parent_of(link) {
        Some(dir) => seq![Step::MakeDirs { path: dir, said: dir }, last],
        None => seq![last],
    }
}

/// How a link is made.
pub fn link(target: &str, at: &str) -> (r: Vec<Step<String>>)
    ensures
        views(r@) == linked(target@, at@),
{
    broadcast use group_views;

    let mut steps: Vec<Step<String>> = Vec::new();
    if let Some(dir) = parent(at) {
        steps.push(Step::MakeDirs { path: dir.clone(), said: dir });
    }
    let mut said = "link ".to_owned();
    said.append(at);
    steps.push(Step::Link { target: target.to_owned(), link: at.to_owned(), said });
    assert(views(steps@) =~= linked(target@, at@));
    steps
}

/// An entry of the app's `/etc` is linked into the empty one.
pub fn etc_entry(path: &str, name: &str) -> (r: Vec<Step<String>>)
    ensures
        views(r@) == linked(path@, path_under("/etc"@, name@)),
{
    let to = join_path("/etc", name);
    link(path, to.as_str())
}

/// How a path under HOME is kept: it is made under `.state`, and linked from HOME.
pub open spec fn state_kept(home: Seq<char>, entry: Seq<char>) -> Seq<Step<Seq<char>>> {
    let target = path_under(path_under(home, ".state"@), entry);
    seq![Step::MakeDirs { path: target, said: "state "@ + target }] + linked(target, path_under(home, entry))
}

/// How a path under HOME is kept.
pub fn state(home: &str, entry: &str) -> (r: Result<Vec<Step<String>>, String>)
    ensures
        match r {
            Ok(steps) => is_plain_relative(entry@) && views(steps@) == state_kept(home@, entry@),
            Err(e) => !is_plain_relative(entry@) && e@ == "state "@ + entry@
                + ": not a plain relative path"@,
        },
{
    broadcast use group_views;

    if !plain_relative(entry) {
        let mut text = "state ".to_owned();
        text.append(entry);
        text.append(": not a plain relative path");
        return Err(text);
    }
    let root = join_path(home, ".state");
    let target = join_path(root.as_str(), entry);
    let from = join_path(home, entry);
    let mut steps: Vec<Step<String>> = Vec::new();
    let mut said = "state ".to_owned();
    said.append(target.as_str());
    steps.push(Step::MakeDirs { path: target.clone(), said });
    steps.append(&mut link(target.as_str(), from.as_str()));
    assert(views(steps@) =~= state_kept(home@, entry@));
    Ok(steps)
}

/// What an entry of the defaults tree comes to.
#[derive(Debug)]
pub enum Entry {
    /// A directory: its entries are next.
    Into,
    Steps(Vec<Step<String>>),
}

/// What an entry of the defaults tree comes to: a file is linked at the same place under HOME.
/// `rel` is where it is below the tree's root.
pub fn link_tree(path: &str, rel: &str, dir: bool, home: &str) -> (r: Entry)
    ensures
        match r {
            Entry::Into => dir,
            Entry::Steps(steps) => !dir && views(steps@) == linked(path@, path_under(home@, rel@)),
        },
{
    if dir {
        return Entry::Into;
    }
    let to = join_path(home, rel);
    Entry::Steps(link(path, to.as_str()))
}

/// How a child ended.
#[derive(Debug, Clone, Copy, PartialEq, Eq, Structural)]
pub enum Ended {
    Exited(u8),
    Killed(u8),
    Otherwise,
}

/// What waiting for a child came to.
#[derive(Debug, Clone, Copy, PartialEq, Eq, Structural)]
pub enum Waited {
    Reaped { pid: i32, ended: Ended },
    Interrupted,
    /// Nothing to report, or nothing to wait for.
    Nothing,
    Failed,
}

/// What the init ends with, once there is an end: the app's status, where a signal's is its
/// number and 128.
pub open spec fn ends_with(app: i32, waited: Waited) -> Option<i32> {
    match waited {
        Waited::Reaped { pid, ended } => if pid == app {
            match ended {
                Ended::Exited(code) => Some(code as i32),
                Ended::Killed(sig) => Some((128 + sig) as i32),
                Ended::Otherwise => Some(1),
            }
        } else {
            None
        },
        Waited::Interrupted => None,
        Waited::Nothing => None,
        Waited::Failed => Some(0),
    }
}

/// What the init ends with, once there is an end.
pub fn ended(app: i32, waited: Waited) -> (r: Option<i32>)
    ensures
        r == ends_with(app, waited),
{
    match waited {
        Waited::Reaped { pid, ended } => if pid == app {
            match ended {
                Ended::Exited(code) => Some(code as i32),
                Ended::Killed(sig) => Some(128 + sig as i32),
                Ended::Otherwise => Some(1),
            }
        } else {
            None
        },
        Waited::Interrupted => None,
        Waited::Nothing => None,
        Waited::Failed => Some(0),
    }
}

/// What is kept for an app is kept below its HOME, and only there: what is made and linked to
/// is `<home>/.state/<entry>`, the link is `<home>/<entry>`, and the directory made for the link
/// is one that the link's path goes through.
pub proof fn state_stays_below_home(home: Seq<char>, entry: Seq<char>)
    requires
        is_plain_relative(entry),
        home.len() > 0,
        home.last() != '/',
    ensures
        ({
            let steps = state_kept(home, entry);
            &&& steps[0]->path == home + "/.state/"@ + entry
            &&& steps.last()->link == home + "/"@ + entry
            &&& steps.last()->target == steps[0]->path
            &&& steps.len() == 2 || (steps.len() == 3 && steps[1]->path.is_prefix_of(
                home + "/"@ + entry,
            ))
        }),
{
    reveal_strlit(".state");
    reveal_strlit("/.state/");
    reveal_strlit("/");
    let root = path_under(home, ".state"@);
    assert(root =~= home + "/.state"@) by {
        reveal_strlit("/.state");
    }
    reveal_strlit("/.state");
    assert(path_under(root, entry) =~= home + "/.state/"@ + entry);
    assert(path_under(home, entry) =~= home + "/"@ + entry);
    parents_begin_paths(home + "/"@ + entry);
}

/// The init ends with the app: with its status where it exited, with 128 and the signal where
/// one killed it; other children that are reaped end nothing.
pub proof fn the_init_ends_with_the_app(app: i32, other: i32, code: u8, sig: u8, ended: Ended)
    requires
        other != app,
    ensures
        ends_with(app, Waited::Reaped { pid: app, ended: Ended::Exited(code) }) == Some(
            code as i32,
        ),
        sig <= 127 ==> ends_with(app, Waited::Reaped { pid: app, ended: Ended::Killed(sig) })
            == Some((128 + sig) as i32),
        ends_with(app, Waited::Reaped { pid: app, ended: Ended::Otherwise }) == Some(1i32),
        ends_with(app, Waited::Reaped { pid: other, ended }) is None,
        ends_with(app, Waited::Interrupted) is None,
        ends_with(app, Waited::Nothing) is None,
        ends_with(app, Waited::Failed) == Some(0i32),
{
}

/// A link is made last, to what it is to lead to, at the place it is asked for; before it only
/// the directory that it goes into.
pub proof fn links_are_made_in_place(target: Seq<char>, link: Seq<char>)
    ensures
        ({
            let steps = linked(target, link);
            &&& steps.len() >= 1
            &&& steps.last() == (Step::Link { target, link, said: "link "@ + link })
            &&& parent_of(link) is Some ==> steps.len() == 2 && steps[0] == (Step::MakeDirs {
                path: parent_of(link)->0,
                said: parent_of(link)->0,
            })
            &&& parent_of(link) is None ==> steps.len() == 1
        }),
{
}

/// What is said where something that is kept cannot be made is its path.
pub proof fn what_cannot_be_kept_is_told(home: Seq<char>, entry: Seq<char>)
    ensures
        ({
            let target = path_under(path_under(home, ".state"@), entry);
            let steps = state_kept(home, entry);
            &&& steps[0] == (Step::MakeDirs { path: target, said: "state "@ + target })
            &&& steps.skip(1) == linked(target, path_under(home, entry))
        }),
{
    let target = path_under(path_under(home, ".state"@), entry);
    assert(state_kept(home, entry).skip(1) =~= linked(target, path_under(home, entry)));
}

} // verus!
