//! The dialogs in which the person picks a file or a screen: one at a time, the rest wait. What
//! the keys do, what is shown, and what is answered.
pub mod laws;
pub mod moves;
pub mod page;

use vstd::prelude::*;
use vstd::string::*;

use crate::order::{lists_all, order_of, picked, text_before, Key};
use crate::portal::protocol::Cursor;
use crate::text::{
    chars_of, control, find_part, has_part, is_control, join, join_path, joined, lower, lowercase,
    number, decimal, path_under, same_text, string_of,
};
use crate::utf8::{byte_len, utf8_len};
use crate::views::{group_views, kept, lemma_kept_step, view_opt, views};

verus! {

/// How big a dialog is where the compositor leaves it to us.
pub const WIDTH: u32 = 640;

pub const HEIGHT: u32 = 480;

/// How much can be typed, in bytes.
pub const MAX_TYPED: usize = 200;

/// The size a dialog gets: zero is ours to fill in.
pub fn sized(width: u32, height: u32) -> (r: (u32, u32))
    ensures
        r == (
            if width == 0 {
                640u32
            } else {
                width
            },
            if height == 0 {
                480u32
            } else {
                height
            },
        ),
{
    let w = if width == 0 {
        WIDTH
    } else {
        width
    };
    let h = if height == 0 {
        HEIGHT
    } else {
        height
    };
    (w, h)
}

/// What is asked of the person. `T` is text.
#[derive(Debug)]
pub enum What<T> {
    /// An existing file.
    Open,
    /// A file to write; `name` is offered.
    Save { name: T },
    /// A screen to share.
    Screen(Cursor),
}

impl View for What<String> {
    type V = What<Seq<char>>;

    open spec fn view(&self) -> What<Seq<char>> {
        match *self {
            What::Open => What::Open,
            What::Save { name } => What::Save { name: name@ },
            What::Screen(cursor) => What::Screen(cursor),
        }
    }
}

/// A request that waits, or is up. `T` is text.
#[derive(Debug)]
pub struct Pending<T> {
    /// Who asks, and their number for it.
    pub who: (u64, u64),
    pub app: T,
    pub uid: u32,
    pub title: T,
    pub what: What<T>,
}

impl View for Pending<String> {
    type V = Pending<Seq<char>>;

    open spec fn view(&self) -> Pending<Seq<char>> {
        Pending {
            who: self.who,
            app: self.app@,
            uid: self.uid,
            title: self.title@,
            what: self.what@,
        }
    }
}

/// Something to pick. `T` is text.
#[derive(Debug)]
pub struct Entry<T> {
    pub name: T,
    pub dir: bool,
    /// Shown after the name.
    pub detail: T,
}

impl View for Entry<String> {
    type V = Entry<Seq<char>>;

    open spec fn view(&self) -> Entry<Seq<char>> {
        Entry { name: self.name@, dir: self.dir, detail: self.detail@ }
    }
}

/// What a name in a directory is.
#[derive(Clone, Copy, Debug, PartialEq, Eq, Structural)]
pub enum FileKind {
    Directory,
    Regular,
    /// A symbolic link, a device, a socket.
    Other,
}

/// A name in a directory. `T` is text.
#[derive(Debug)]
pub struct Listed<T> {
    pub name: T,
    pub kind: FileKind,
}

impl View for Listed<String> {
    type V = Listed<Seq<char>>;

    open spec fn view(&self) -> Listed<Seq<char>> {
        Listed { name: self.name@, kind: self.kind }
    }
}

/// A dialog. `T` is text, `D` a path, `E` a list of entries.
#[derive(Debug)]
pub struct Dialog<T, D, E> {
    pub req: Pending<T>,
    /// Below the tree that is shown; empty at the top.
    pub dir: D,
    pub entries: E,
    /// Index into the shown entries; `None` while saving means the name line has the cursor.
    pub selected: Option<usize>,
    /// What the person typed: the name to save as, or the filter.
    pub typed: T,
    pub note: Option<T>,
}

pub type Shown = Dialog<String, Vec<String>, Vec<Entry<String>>>;

pub type ShownView = Dialog<Seq<char>, Seq<Seq<char>>, Seq<Entry<Seq<char>>>>;

impl View for Dialog<String, Vec<String>, Vec<Entry<String>>> {
    type V = ShownView;

    open spec fn view(&self) -> ShownView {
        Dialog {
            req: self.req@,
            dir: views(self.dir@),
            entries: views(self.entries@),
            selected: self.selected,
            typed: self.typed@,
            note: view_opt(self.note),
        }
    }
}

/// A key. `T` is text.
#[derive(Debug)]
pub enum Press<T> {
    Escape,
    Enter,
    Up,
    Down,
    BackSpace,
    Left,
    /// Any other, with what it types.
    Typed(T),
}

impl View for Press<String> {
    type V = Press<Seq<char>>;

    open spec fn view(&self) -> Press<Seq<char>> {
        match *self {
            Press::Escape => Press::Escape,
            Press::Enter => Press::Enter,
            Press::Up => Press::Up,
            Press::Down => Press::Down,
            Press::BackSpace => Press::BackSpace,
            Press::Left => Press::Left,
            Press::Typed(s) => Press::Typed(s@),
        }
    }
}

/// What is done, in order. `T` is text.
#[derive(Debug)]
pub enum Act<T> {
    /// The dialog goes up.
    Show,
    /// The dialog comes down.
    Hide,
    Redraw,
    /// Read this directory of the tree.
    List { dir: T },
    /// Open this file of the tree for a uid.
    Open { path: T, name: T, uid: u32, write: bool },
    /// Who asked gets this path.
    Chosen { who: (u64, u64), path: T },
    Cancelled { who: (u64, u64) },
}

impl View for Act<String> {
    type V = Act<Seq<char>>;

    open spec fn view(&self) -> Act<Seq<char>> {
        match *self {
            Act::Show => Act::Show,
            Act::Hide => Act::Hide,
            Act::Redraw => Act::Redraw,
            Act::List { dir } => Act::List { dir: dir@ },
            Act::Open { path, name, uid, write } => Act::Open {
                path: path@,
                name: name@,
                uid,
                write,
            },
            Act::Chosen { who, path } => Act::Chosen { who, path: path@ },
            Act::Cancelled { who } => Act::Cancelled { who },
        }
    }
}

/// A character that can stand in a name.
pub open spec fn printable(c: char) -> bool {
    !is_control(c) && c != '/'
}

/// The name offered, as it is typed in: what can stand in a name, and not too much of it.
pub open spec fn offered(name: Seq<char>) -> Seq<char> {
    let all = kept(name, |c: char| printable(c));
    if all.len() <= MAX_TYPED {
        all
    } else {
        all.take(MAX_TYPED as int)
    }
}

/// A name that a file can have.
pub open spec fn is_file_name(name: Seq<char>) -> bool {
    name.len() > 0 && name != "."@ && name != ".."@ && !name.contains('/')
}

/// Shown in a listing: files and directories, no dotfiles, and no links, which could lead out
/// of the tree.
pub open spec fn visible(e: Listed<Seq<char>>) -> bool {
    !(e.name.len() > 0 && e.name[0] == '.') && e.kind != FileKind::Other
}

/// An entry of a listing.
pub open spec fn entry(e: Listed<Seq<char>>) -> Entry<Seq<char>> {
    Entry { name: e.name, dir: e.kind == FileKind::Directory, detail: Seq::empty() }
}

/// Directories stand first, then names whatever their case.
pub open spec fn entry_before(a: Entry<Seq<char>>, b: Entry<Seq<char>>) -> bool {
    (a.dir && !b.dir) || (a.dir == b.dir && text_before(lower(a.name), lower(b.name)))
}

/// The entries of a directory: what is visible in it, in order; where two are alike the one
/// that was read first stands first.
pub open spec fn is_listing(entries: Seq<Entry<Seq<char>>>, read: Seq<Listed<Seq<char>>>) -> bool {
    let all = kept(read, |e: Listed<Seq<char>>| visible(e)).map_values(
        |e: Listed<Seq<char>>| entry(e),
    );
    exists|order: Seq<usize>|
        {
            &&& lists_all(order, all.len() as int)
            &&& #[trigger] picked(entries, all, order)
            &&& forall|a: int, b: int|
                0 <= a < b < order.len() ==> {
                    ||| entry_before(all[#[trigger] order[a] as int], all[#[trigger] order[b] as int])
                    ||| (!entry_before(all[order[b] as int], all[order[a] as int]) && order[a]
                        < order[b])
                }
        }
}

impl<T, D, E> Dialog<T, D, E> {
    /// The person names a file to write.
    pub open spec fn is_saving(self) -> bool {
        self.req.what is Save
    }

    /// The person picks a screen.
    pub open spec fn is_casting(self) -> bool {
        self.req.what is Screen
    }

    fn saving(&self) -> (r: bool)
        ensures
            r == self.is_saving(),
    {
        match self.req.what {
            What::Save { .. } => true,
            _ => false,
        }
    }

    fn casting(&self) -> (r: bool)
        ensures
            r == self.is_casting(),
    {
        match self.req.what {
            What::Screen(_) => true,
            _ => false,
        }
    }
}

/// The entry passes the filter.
pub open spec fn passes(d: ShownView, i: int) -> bool {
    d.is_saving() || d.typed.len() == 0 || has_part(lower(d.entries[i].name), lower(d.typed))
}

/// The entries that pass the filter, by index.
pub open spec fn shown(d: ShownView) -> Seq<usize> {
    kept(indices(d.entries.len() as int), |i: usize| passes(d, i as int))
}

/// The first indices.
pub open spec fn indices(n: int) -> Seq<usize> {
    Seq::new(n as nat, |i: int| i as usize)
}

/// The first entry selected, or none where a name is typed or nothing is shown.
pub open spec fn reset(d: ShownView) -> ShownView {
    Dialog {
        selected: if d.is_saving() || shown(d).len() == 0 {
            None
        } else {
            Some(0)
        },
        ..d
    }
}

/// The entry that is selected.
pub open spec fn selection(d: ShownView) -> Option<Entry<Seq<char>>> {
    match d.selected {
        Some(i) => if i < shown(d).len() {
            Some(d.entries[shown(d)[i as int] as int])
        } else {
            None
        },
        None => None,
    }
}

/// The path shown for a directory.
pub open spec fn dir_text(dir: Seq<Seq<char>>) -> Seq<char> {
    joined(dir, "/"@)
}

/// A dialog as it goes up.
pub open spec fn fresh(req: Pending<Seq<char>>, screens: Seq<Entry<Seq<char>>>) -> ShownView {
    reset(
        Dialog {
            req,
            dir: Seq::empty(),
            entries: if req.what is Screen {
                screens
            } else {
                Seq::empty()
            },
            selected: None,
            typed: match req.what {
                What::Save { name } => offered(name),
                _ => Seq::empty(),
            },
            note: None,
        },
    )
}

/// The requests that wait, and the dialog that is up. `Q` is a list of requests, `D` a dialog,
/// `E` a list of entries.
#[derive(Debug)]
pub struct Desk<Q, D, E> {
    pub queue: Q,
    pub dialog: Option<D>,
    /// The screens there are.
    pub screens: E,
}

pub type Front = Desk<Vec<Pending<String>>, Shown, Vec<Entry<String>>>;

pub type FrontView = Desk<Seq<Pending<Seq<char>>>, ShownView, Seq<Entry<Seq<char>>>>;

impl View for Desk<Vec<Pending<String>>, Shown, Vec<Entry<String>>> {
    type V = FrontView;

    open spec fn view(&self) -> FrontView {
        Desk {
            queue: views(self.queue@),
            dialog: view_opt(self.dialog),
            screens: views(self.screens@),
        }
    }
}

/// What something comes to: the desk after it, and what is done.
pub struct Turn {
    pub desk: FrontView,
    pub acts: Seq<Act<Seq<char>>>,
}

impl Turn {
    /// Nothing done yet.
    pub open spec fn start(desk: FrontView) -> Turn {
        Turn { desk, acts: Seq::empty() }
    }

    /// One thing more is done.
    pub open spec fn act(self, act: Act<Seq<char>>) -> Turn {
        Turn { acts: self.acts.push(act), ..self }
    }

    /// The dialog is this one now.
    pub open spec fn with(self, d: ShownView) -> Turn {
        Turn { desk: Desk { dialog: Some(d), ..self.desk }, ..self }
    }

    /// The next request goes up, if none is up.
    pub open spec fn next(self) -> Turn {
        if self.desk.dialog is Some || self.desk.queue.len() == 0 {
            self
        } else {
            let d = fresh(self.desk.queue[0], self.desk.screens);
            let up = (Turn {
                desk: Desk {
                    queue: self.desk.queue.skip(1),
                    dialog: Some(d),
                    ..self.desk
                },
                ..self
            }).act(Act::Show);
            if d.is_casting() {
                up
            } else {
                up.act(Act::List { dir: Seq::empty() })
            }
        }
    }

    /// The dialog comes down, and the next request goes up.
    pub open spec fn close(self) -> Turn {
        (Turn { desk: Desk { dialog: None, ..self.desk }, ..self }).act(Act::Hide).next()
    }

    /// A request joins the queue.
    pub open spec fn ask(self, p: Pending<Seq<char>>) -> Turn {
        (Turn { desk: Desk { queue: self.desk.queue.push(p), ..self.desk }, ..self }).next()
    }

    /// Requests are withdrawn: those of someone, or one of theirs.
    pub open spec fn withdraw(self, who: u64, req: Option<u64>) -> Turn {
        let left = Turn {
            desk: Desk {
                queue: kept(self.desk.queue, |p: Pending<Seq<char>>| !is_theirs(p.who, who, req)),
                ..self.desk
            },
            ..self
        };
        match self.desk.dialog {
            Some(d) => if is_theirs(d.req.who, who, req) {
                left.close()
            } else {
                left
            },
            None => left,
        }
    }

    /// Who asked hears that it was refused, and the next goes up.
    pub open spec fn cancel(self) -> Turn {
        match self.desk.dialog {
            Some(d) => self.act(Act::Cancelled { who: d.req.who }).close(),
            None => self,
        }
    }

    /// The directory is read again.
    pub open spec fn relist(self, d: ShownView) -> Turn {
        self.with(
            reset(Dialog { entries: Seq::empty(), note: None, ..d }),
        ).act(Act::List { dir: dir_text(d.dir) })
    }

    /// One directory up.
    pub open spec fn up(self) -> Turn {
        match self.desk.dialog {
            Some(d) => if d.dir.len() > 0 {
                self.relist(Dialog { dir: d.dir.drop_last(), ..d })
            } else {
                self
            },
            None => self,
        }
    }

    /// A file is picked by its name.
    pub open spec fn grant(self, d: ShownView, name: Seq<char>) -> Turn {
        if is_file_name(name) {
            self.act(
                Act::Open {
                    path: dir_text(d.dir.push(name)),
                    name,
                    uid: d.req.uid,
                    write: d.is_saving(),
                },
            )
        } else {
            self.with(Dialog { note: Some("that is not a file name"@), ..d }).act(Act::Redraw)
        }
    }

    /// What is selected is entered, or what is typed taken.
    pub open spec fn enter(self) -> Turn {
        match self.desk.dialog {
            None => self,
            Some(d) => if d.is_casting() {
                self
            } else {
                match selection(d) {
                    Some(e) => if e.dir {
                        self.relist(
                            Dialog {
                                dir: d.dir.push(e.name),
                                typed: if d.is_saving() {
                                    d.typed
                                } else {
                                    Seq::empty()
                                },
                                ..d
                            },
                        )
                    } else if d.is_saving() {
                        self.with(Dialog { typed: e.name, selected: None, ..d }).act(Act::Redraw)
                    } else {
                        self.grant(d, e.name)
                    },
                    None => if d.is_saving() {
                        self.grant(d, d.typed)
                    } else {
                        self
                    },
                }
            },
        }
    }

    /// What a key does.
    pub open spec fn press(self, press: Press<Seq<char>>) -> Turn {
        match self.desk.dialog {
            None => self,
            Some(d) => match press {
                Press::Escape => self.cancel(),
                Press::Enter => self.enter(),
                Press::Up => self.with(
                    Dialog { selected: above(d.selected, shown(d).len() as int), ..d },
                ).act(Act::Redraw),
                Press::Down => self.with(
                    Dialog { selected: below(d.selected, shown(d).len() as int), ..d },
                ).act(Act::Redraw),
                Press::BackSpace => if d.typed.len() > 0 {
                    self.with(reset(Dialog { typed: d.typed.drop_last(), ..d })).act(Act::Redraw)
                } else {
                    self.up()
                },
                Press::Left => self.up(),
                Press::Typed(s) => if can_type(d.typed, s) {
                    self.with(reset(Dialog { typed: d.typed + s, ..d })).act(Act::Redraw)
                } else {
                    self
                },
            },
        }
    }

    /// A file was opened for the app under a grant, or could not be.
    pub open spec fn opened(self, docs: Seq<char>, name: Seq<char>, grant: Result<u64, Seq<char>>) -> Turn {
        match self.desk.dialog {
            None => self,
            Some(d) => match grant {
                Err(e) => self.with(Dialog { note: Some(name + ": "@ + e), ..d }).act(Act::Redraw),
                Ok(id) => self.act(
                    Act::Chosen { who: d.req.who, path: doc_path(docs, id, name) },
                ).close(),
            },
        }
    }
}

/// Where an app finds a document.
pub open spec fn doc_path(docs: Seq<char>, id: u64, name: Seq<char>) -> Seq<char> {
    path_under(path_under(docs, decimal(id as nat)), name)
}

/// What is typed fits and can stand in a name.
pub open spec fn can_type(typed: Seq<char>, s: Seq<char>) -> bool {
    (forall|i: int| 0 <= i < s.len() ==> printable(#[trigger] s[i])) && byte_len(typed) + byte_len(s)
        <= MAX_TYPED
}

/// Someone's request: any of theirs, or the one with this number.
pub open spec fn is_theirs(p: (u64, u64), who: u64, req: Option<u64>) -> bool {
    p.0 == who && match req {
        None => true,
        Some(req) => p.1 == req,
    }
}

/// The selection one up, of `n` shown.
pub open spec fn above(selected: Option<usize>, n: int) -> Option<usize> {
    match selected {
        Some(i) => Some(
            if i == 0 {
                0
            } else {
                (i - 1) as usize
            },
        ),
        None => if n > 0 {
            Some((n - 1) as usize)
        } else {
            None
        },
    }
}

/// The selection one down, of `n` shown.
pub open spec fn below(selected: Option<usize>, n: int) -> Option<usize> {
    match selected {
        Some(i) => Some(
            if i + 1 < n {
                (i + 1) as usize
            } else {
                i
            },
        ),
        None => if n > 0 {
            Some(0)
        } else {
            None
        },
    }
}

/// The desk with what was done so far.
pub open spec fn turn(desk: Front, out: Vec<Act<String>>) -> Turn {
    Turn { desk: desk@, acts: views(out@) }
}

/// The name offered, as it is typed in.
fn offer(name: &str) -> (r: String)
    ensures
        r@ == offered(name@),
{
    let chars = chars_of(name);
    let ghost keep = |c: char| printable(c);
    let ghost all = kept(chars@, keep);
    let mut left: Vec<char> = Vec::new();
    let mut i: usize = 0;
    assert(chars@.take(0) =~= Seq::empty());
    while i < chars.len()
        invariant
            i <= chars@.len(),
            keep == (|c: char| printable(c)),
            left@ == kept(chars@.take(i as int), keep),
        decreases chars@.len() - i,
    {
        proof {
            lemma_kept_step(chars@, keep, i as int);
        }
        let c = chars[i];
        if !control(c) && c != '/' {
            left.push(c);
        }
        i = i + 1;
    }
    assert(chars@.take(i as int) =~= chars@);
    let end = if left.len() <= MAX_TYPED {
        left.len()
    } else {
        MAX_TYPED
    };
    assert(left@.subrange(0, end as int) =~= offered(name@));
    string_of(&left, 0, end)
}

/// Whether a file can have this name.
fn file_name(name: &str) -> (r: bool)
    ensures
        r == is_file_name(name@),
{
    let chars = chars_of(name);
    if chars.len() == 0 || same_text(name, ".") || same_text(name, "..") {
        return false;
    }
    let mut i: usize = 0;
    while i < chars.len()
        invariant
            i <= chars@.len(),
            chars@ == name@,
            forall|j: int| 0 <= j < i ==> chars@[j] != '/',
        decreases chars@.len() - i,
    {
        if chars[i] == '/' {
            assert(name@.contains('/'));
            return false;
        }
        i = i + 1;
    }
    true
}

/// Whether what is typed fits and can stand in a name.
fn typable(typed: &str, s: &str) -> (r: bool)
    ensures
        r == can_type(typed@, s@),
{
    let chars = chars_of(s);
    let mut i: usize = 0;
    while i < chars.len()
        invariant
            i <= chars@.len(),
            chars@ == s@,
            forall|j: int| 0 <= j < i ==> printable(#[trigger] s@[j]),
        decreases chars@.len() - i,
    {
        let c = chars[i];
        if control(c) || c == '/' {
            assert(!printable(s@[i as int]));
            return false;
        }
        i = i + 1;
    }
    let a = utf8_len(typed);
    let b = utf8_len(s);
    a <= MAX_TYPED && b <= MAX_TYPED - a
}

/// The selection one up.
pub fn step_up(selected: Option<usize>, n: usize) -> (r: Option<usize>)
    ensures
        r == above(selected, n as int),
{
    match selected {
        Some(i) => if i == 0 {
            Some(0)
        } else {
            Some(i - 1)
        },
        None => if n > 0 {
            Some(n - 1)
        } else {
            None
        },
    }
}

/// The selection one down.
pub fn step_down(selected: Option<usize>, n: usize) -> (r: Option<usize>)
    ensures
        r == below(selected, n as int),
{
    match selected {
        Some(i) => if n > 0 && i < n - 1 {
            Some(i + 1)
        } else {
            Some(i)
        },
        None => if n > 0 {
            Some(0)
        } else {
            None
        },
    }
}

/// The same entries once more.
pub fn same_entries(list: &Vec<Entry<String>>) -> (r: Vec<Entry<String>>)
    ensures
        views(r@) == views(list@),
{
    broadcast use group_views;

    let mut out: Vec<Entry<String>> = Vec::new();
    let mut i: usize = 0;
    while i < list.len()
        invariant
            i <= list@.len(),
            out@.len() == i,
            forall|j: int| 0 <= j < i ==> (#[trigger] out@[j])@ == list@[j]@,
        decreases list@.len() - i,
    {
        let e = &list[i];
        out.push(Entry { name: e.name.clone(), dir: e.dir, detail: e.detail.clone() });
        i = i + 1;
    }
    assert(views(out@) =~= views(list@));
    out
}

/// The entries of a directory, of what was read from it.
fn listing(read: &Vec<Listed<String>>) -> (r: Vec<Entry<String>>)
    ensures
        is_listing(views(r@), views(read@)),
{
    broadcast use group_views;

    let ghost all = views(read@);
    let ghost keep = |e: Listed<Seq<char>>| visible(e);
    let ghost to = |e: Listed<Seq<char>>| entry(e);
    let mut names: Vec<Entry<String>> = Vec::new();
    let mut keys: Vec<Key> = Vec::new();
    let mut i: usize = 0;
    assert(all.take(0) =~= Seq::empty());
    assert(kept(all.take(0), keep).map_values(to) =~= Seq::empty());
    while i < read.len()
        invariant
            i <= read@.len(),
            all == views(read@),
            keep == (|e: Listed<Seq<char>>| visible(e)),
            to == (|e: Listed<Seq<char>>| entry(e)),
            views(names@) == kept(all.take(i as int), keep).map_values(to),
            keys@.len() == names@.len(),
            forall|j: int| 0 <= j < keys@.len() ==> is_key(#[trigger] keys@[j], names@[j]@),
        decreases read@.len() - i,
    {
        broadcast use group_views;

        proof {
            lemma_kept_step(all, keep, i as int);
            assert(all[i as int] == read@[i as int]@);
        }
        let e = &read[i];
        let chars = chars_of(e.name.as_str());
        let dotted = chars.len() > 0 && chars[0] == '.';
        let other = match e.kind {
            FileKind::Other => true,
            _ => false,
        };
        if !dotted && !other {
            let dir = e.kind == FileKind::Directory;
            let rank: u8 = if dir {
                0
            } else {
                1
            };
            let none = String::new();
            proof {
                assert(kept(all.take(i as int), keep).push(all[i as int]).map_values(to)
                    =~= kept(all.take(i as int), keep).map_values(to).push(entry(all[i as int])));
            }
            keys.push((rank, chars_of(lowercase(e.name.as_str()).as_str())));
            names.push(Entry { name: e.name.clone(), dir, detail: none });
        }
        i = i + 1;
    }
    assert(all.take(i as int) =~= all);
    let order = order_of(&keys);
    let mut out: Vec<Entry<String>> = Vec::new();
    let ghost shown = views(names@);
    let mut j: usize = 0;
    while j < order.len()
        invariant
            j <= order@.len(),
            lists_all(order@, names@.len() as int),
            out@.len() == j,
            forall|k: int| 0 <= k < j ==> (#[trigger] out@[k])@ == names@[order@[k] as int]@,
        decreases order@.len() - j,
    {
        let e = &names[order[j]];
        out.push(Entry { name: e.name.clone(), dir: e.dir, detail: e.detail.clone() });
        j = j + 1;
    }
    assert(picked(views(out@), shown, order@));
    assert forall|a: int, b: int| 0 <= a < b < order@.len() implies {
        ||| entry_before(shown[#[trigger] order@[a] as int], shown[#[trigger] order@[b] as int])
        ||| (!entry_before(shown[order@[b] as int], shown[order@[a] as int]) && order@[a]
            < order@[b])
    } by {
        assert(is_key(keys@[order@[a] as int], names@[order@[a] as int]@));
        assert(is_key(keys@[order@[b] as int], names@[order@[b] as int]@));
    }
    out
}

/// The sort key of an entry.
spec fn is_key(key: Key, e: Entry<Seq<char>>) -> bool {
    key.0 == (if e.dir {
        0u8
    } else {
        1u8
    }) && key.1@ == lower(e.name)
}

impl Dialog<String, Vec<String>, Vec<Entry<String>>> {
    /// The entries that pass the filter, by index.
    pub fn shown(&self) -> (r: Vec<usize>)
        ensures
            r@ == shown(self@),
            forall|i: int| 0 <= i < r@.len() ==> (#[trigger] r@[i]) < self.entries@.len(),
    {
        broadcast use group_views;

        let ghost n = self.entries@.len() as int;
        let ghost keep = |i: usize| passes(self@, i as int);
        let all_pass = self.saving() || self.typed.as_str().is_empty();
        let filter = chars_of(lowercase(self.typed.as_str()).as_str());
        let mut list: Vec<usize> = Vec::new();
        let mut i: usize = 0;
        assert(indices(n).take(0) =~= Seq::empty());
        while i < self.entries.len()
            invariant
                i <= self.entries@.len(),
                n == self.entries@.len(),
                keep == (|i: usize| passes(self@, i as int)),
                all_pass == (self@.is_saving() || self@.typed.len() == 0),
                filter@ == lower(self@.typed),
                list@ == kept(indices(n).take(i as int), keep),
                forall|j: int| 0 <= j < list@.len() ==> (#[trigger] list@[j]) < n,
            decreases self.entries@.len() - i,
        {
            broadcast use group_views;

            proof {
                lemma_kept_step(indices(n), keep, i as int);
                assert(indices(n)[i as int] == i);
                assert(self@.entries[i as int] == self.entries@[i as int]@);
            }
            let pass = all_pass || find_part(
                &chars_of(lowercase(self.entries[i].name.as_str()).as_str()),
                &filter,
            );
            if pass {
                list.push(i);
            }
            i = i + 1;
        }
        assert(indices(n).take(i as int) =~= indices(n));
        list
    }

    fn reset_selection(&mut self)
        ensures
            final(self)@ == reset(old(self)@),
            *final(self) == (Dialog { selected: final(self).selected, ..*old(self) }),
    {
        proof {
            lemma_shown(self@);
        }
        let none = self.saving() || self.shown().len() == 0;
        self.selected = if none {
            None
        } else {
            Some(0)
        };
    }

    /// The entry that is selected.
    fn picked(&self) -> (r: Option<&Entry<String>>)
        ensures
            match r {
                Some(e) => selection(self@) == Some(e@),
                None => selection(self@) is None,
            },
    {
        broadcast use group_views;

        match self.selected {
            Some(i) => {
                let shown = self.shown();
                if i < shown.len() {
                    assert(self@.entries[shown@[i as int] as int]
                        == self.entries@[shown@[i as int] as int]@);
                    Some(&self.entries[shown[i]])
                } else {
                    None
                }
            },
            None => None,
        }
    }
}

/// What is shown goes by the entries and what is typed, not by the selection.
pub proof fn lemma_shown(d: ShownView)
    ensures
        forall|selected: Option<usize>| #[trigger]
            shown(Dialog { selected, ..d }) == shown(d),
{
    assert forall|selected: Option<usize>| #[trigger]
        shown(Dialog { selected, ..d }) == shown(d) by {
        let e = Dialog { selected, ..d };
        let a = |i: usize| passes(d, i as int);
        let b = |i: usize| passes(e, i as int);
        assert forall|i: usize| #[trigger] a(i) == b(i) by {}
        assert(a =~= b);
    }
}

impl Desk<Vec<Pending<String>>, Shown, Vec<Entry<String>>> {
    /// Nothing asked.
    pub fn new() -> (r: Front)
        ensures
            r@ == (Desk {
                queue: Seq::<Pending<Seq<char>>>::empty(),
                dialog: None::<ShownView>,
                screens: Seq::<Entry<Seq<char>>>::empty(),
            }),
    {
        broadcast use group_views;

        Desk { queue: Vec::new(), dialog: None, screens: Vec::new() }
    }

    /// The next request goes up, if none is up.
    fn next(&mut self, out: &mut Vec<Act<String>>)
        ensures
            turn(*final(self), *final(out)) == turn(*old(self), *old(out)).next(),
    {
        broadcast use group_views;

        if self.dialog.is_some() || self.queue.len() == 0 {
            return;
        }
        let req = self.queue.remove(0);
        assert(views(self.queue@) =~= old(self)@.queue.skip(1));
        let ghost asked = req@;
        assert(asked == old(self)@.queue[0]);
        let typed = match &req.what {
            What::Save { name } => offer(name.as_str()),
            _ => String::new(),
        };
        let mut d: Shown = Dialog {
            req,
            dir: Vec::new(),
            entries: Vec::new(),
            selected: None,
            typed,
            note: None,
        };
        let casting = d.casting();
        if casting {
            d.entries = same_entries(&self.screens);
        }
        d.reset_selection();
        assert(d@ == fresh(asked, self@.screens));
        self.dialog = Some(d);
        out.push(Act::Show);
        if !casting {
            out.push(Act::List { dir: String::new() });
        }
    }

    /// The dialog comes down, and the next request goes up.
    pub fn close(&mut self, out: &mut Vec<Act<String>>)
        ensures
            turn(*final(self), *final(out)) == turn(*old(self), *old(out)).close(),
    {
        broadcast use group_views;

        self.dialog = None;
        out.push(Act::Hide);
        self.next(out);
    }

    /// A request joins the queue.
    pub fn ask(&mut self, req: Pending<String>, out: &mut Vec<Act<String>>)
        ensures
            turn(*final(self), *final(out)) == turn(*old(self), *old(out)).ask(req@),
    {
        broadcast use group_views;

        self.queue.push(req);
        self.next(out);
    }

    /// Requests are withdrawn: those of someone, or one of theirs.
    pub fn withdraw(&mut self, who: u64, req: Option<u64>, out: &mut Vec<Act<String>>)
        ensures
            turn(*final(self), *final(out)) == turn(*old(self), *old(out)).withdraw(who, req),
    {
        broadcast use group_views;

        let ghost all = views(self.queue@);
        let ghost keep = |p: Pending<Seq<char>>| !is_theirs(p.who, who, req);
        let ghost was = self.queue@;
        let mut left: Vec<Pending<String>> = Vec::new();
        let mut i: usize = 0;
        assert(all.take(0) =~= Seq::empty());
        assert(was.skip(0) =~= was);
        let n = self.queue.len();
        while self.queue.len() > 0
            invariant
                i <= n,
                n == was.len(),
                all == views(was),
                self.queue@ == was.skip(i as int),
                self.dialog == old(self).dialog,
                self.screens == old(self).screens,
                keep == (|p: Pending<Seq<char>>| !is_theirs(p.who, who, req)),
                views(left@) == kept(all.take(i as int), keep),
            decreases self.queue@.len(),
        {
            broadcast use group_views;

            proof {
                lemma_kept_step(all, keep, i as int);
                assert(all[i as int] == was[i as int]@);
            }
            let p = self.queue.remove(0);
            assert(p == was[i as int]);
            assert(self.queue@ =~= was.skip(i + 1));
            let gone = p.who.0 == who && match req {
                None => true,
                Some(req) => p.who.1 == req,
            };
            if !gone {
                left.push(p);
            }
            i = i + 1;
        }
        assert(all.take(i as int) =~= all);
        self.queue = left;
        let up = match &self.dialog {
            Some(d) => d.req.who.0 == who && match req {
                None => true,
                Some(req) => d.req.who.1 == req,
            },
            None => false,
        };
        if up {
            self.close(out);
        }
    }

    /// Who asked hears that it was refused, and the next goes up.
    pub fn cancel(&mut self, out: &mut Vec<Act<String>>)
        ensures
            turn(*final(self), *final(out)) == turn(*old(self), *old(out)).cancel(),
    {
        broadcast use group_views;

        let who = match &self.dialog {
            Some(d) => d.req.who,
            None => return,
        };
        out.push(Act::Cancelled { who });
        self.close(out);
    }

    /// The directory is read again.
    fn relist(&mut self, mut d: Shown, out: &mut Vec<Act<String>>)
        ensures
            turn(*final(self), *final(out)) == turn(*old(self), *old(out)).relist(d@),
    {
        broadcast use group_views;

        let dir = join(&d.dir, "/");
        d.entries = Vec::new();
        d.note = None;
        d.reset_selection();
        self.dialog = Some(d);
        out.push(Act::List { dir });
    }

    /// One directory up.
    fn up(&mut self, out: &mut Vec<Act<String>>)
        ensures
            turn(*final(self), *final(out)) == turn(*old(self), *old(out)).up(),
    {
        broadcast use group_views;

        match self.dialog.take() {
            Some(mut d) => {
                if d.dir.len() > 0 {
                    let ghost before = d@;
                    let _ = d.dir.pop();
                    assert(views(d.dir@) =~= before.dir.drop_last());
                    self.relist(d, out);
                } else {
                    self.dialog = Some(d);
                }
            },
            None => {},
        }
    }

    /// A file is picked by its name.
    fn grant(&mut self, mut d: Shown, name: String, out: &mut Vec<Act<String>>)
        requires
            old(self)@.dialog is None,
        ensures
            turn(*final(self), *final(out)) == turn(*old(self), *old(out)).with(d@).grant(
                d@,
                name@,
            ),
    {
        broadcast use group_views;

        if file_name(name.as_str()) {
            let mut parts = crate::text::copied(&d.dir);
            parts.push(name.clone());
            let path = join(&parts, "/");
            let (uid, write) = (d.req.uid, d.saving());
            self.dialog = Some(d);
            out.push(Act::Open { path, name, uid, write });
        } else {
            d.note = Some("that is not a file name".to_owned());
            self.dialog = Some(d);
            out.push(Act::Redraw);
        }
    }

    /// What is selected is entered, or what is typed taken.
    fn enter(&mut self, out: &mut Vec<Act<String>>)
        ensures
            turn(*final(self), *final(out)) == turn(*old(self), *old(out)).enter(),
    {
        broadcast use group_views;

        let mut d = match self.dialog.take() {
            Some(d) => d,
            None => return,
        };
        if d.casting() {
            self.dialog = Some(d);
            return;
        }
        let saving = d.saving();
        let chosen = match d.picked() {
            Some(e) => Some((e.name.clone(), e.dir)),
            None => None,
        };
        match chosen {
            Some((name, true)) => {
                d.dir.push(name);
                if !saving {
                    d.typed = String::new();
                }
                self.relist(d, out);
            },
            Some((name, false)) => {
                if saving {
                    d.typed = name;
                    d.selected = None;
                    self.dialog = Some(d);
                    out.push(Act::Redraw);
                } else {
                    self.grant(d, name, out);
                }
            },
            None => {
                if saving {
                    let name = d.typed.clone();
                    self.grant(d, name, out);
                } else {
                    self.dialog = Some(d);
                }
            },
        }
    }

    /// The screen that Enter picks.
    pub fn screen_picked(&self) -> (r: Option<String>)
        ensures
            view_opt(r) == match self@.dialog {
                Some(d) => if d.is_casting() {
                    match selection(d) {
                        Some(e) => Some(e.name),
                        None => None,
                    }
                } else {
                    None
                },
                None => None,
            },
    {
        match &self.dialog {
            Some(d) => if d.casting() {
                match d.picked() {
                    Some(e) => Some(e.name.clone()),
                    None => None,
                }
            } else {
                None
            },
            None => None,
        }
    }

    /// Says something under the dialog.
    pub fn say(&mut self, note: String, out: &mut Vec<Act<String>>)
        ensures
            turn(*final(self), *final(out)) == match old(self)@.dialog {
                Some(d) => turn(*old(self), *old(out)).with(
                    Dialog { note: Some(note@), ..d },
                ).act(Act::Redraw),
                None => turn(*old(self), *old(out)),
            },
    {
        broadcast use group_views;

        match self.dialog.take() {
            Some(mut d) => {
                d.note = Some(note);
                self.dialog = Some(d);
                out.push(Act::Redraw);
            },
            None => {},
        }
    }

    /// What a key does.
    pub fn press(&mut self, press: Press<String>, out: &mut Vec<Act<String>>)
        ensures
            turn(*final(self), *final(out)) == turn(*old(self), *old(out)).press(press@),
    {
        broadcast use group_views;

        if self.dialog.is_none() {
            return;
        }
        match press {
            Press::Escape => self.cancel(out),
            Press::Enter => self.enter(out),
            Press::Left => self.up(out),
            Press::Up => {
                if let Some(mut d) = self.dialog.take() {
                    let n = d.shown().len();
                    d.selected = step_up(d.selected, n);
                    self.dialog = Some(d);
                    out.push(Act::Redraw);
                }
            },
            Press::Down => {
                if let Some(mut d) = self.dialog.take() {
                    let n = d.shown().len();
                    d.selected = step_down(d.selected, n);
                    self.dialog = Some(d);
                    out.push(Act::Redraw);
                }
            },
            Press::BackSpace => {
                if let Some(mut d) = self.dialog.take() {
                    let chars = chars_of(d.typed.as_str());
                    if chars.len() > 0 {
                        d.typed = string_of(&chars, 0, chars.len() - 1);
                        assert(d.typed@ =~= chars@.drop_last());
                        d.reset_selection();
                        self.dialog = Some(d);
                        out.push(Act::Redraw);
                    } else {
                        self.dialog = Some(d);
                        self.up(out);
                    }
                }
            },
            Press::Typed(s) => {
                if let Some(mut d) = self.dialog.take() {
                    if typable(d.typed.as_str(), s.as_str()) {
                        d.typed.append(s.as_str());
                        d.reset_selection();
                        self.dialog = Some(d);
                        out.push(Act::Redraw);
                    } else {
                        self.dialog = Some(d);
                    }
                }
            },
        }
    }

    /// A directory was read, or could not be.
    pub fn listed(&mut self, read: Result<Vec<Listed<String>>, String>, out: &mut Vec<Act<String>>)
        ensures
            match (old(self)@.dialog, read) {
                (None, _) => turn(*final(self), *final(out)) == turn(*old(self), *old(out)),
                (Some(d), Ok(names)) => exists|entries: Seq<Entry<Seq<char>>>|
                    is_listing(entries, views(names@)) && turn(*final(self), *final(out)) == turn(
                        *old(self),
                        *old(out),
                    ).with(#[trigger] relisted(d, entries, None)).act(Act::Redraw),
                (Some(d), Err(e)) => turn(*final(self), *final(out)) == turn(
                    *old(self),
                    *old(out),
                ).with(
                    relisted(
                        d,
                        Seq::empty(),
                        Some("cannot list /"@ + dir_text(d.dir) + ": "@ + e@),
                    ),
                ).act(Act::Redraw),
            },
    {
        broadcast use group_views;

        let mut d = match self.dialog.take() {
            Some(d) => d,
            None => return,
        };
        let ghost before = d@;
        match read {
            Ok(names) => {
                d.entries = listing(&names);
                d.note = None;
                d.reset_selection();
                assert(d@ == relisted(before, views(d.entries@), None));
            },
            Err(e) => {
                let mut note = "cannot list /".to_owned();
                note.append(join(&d.dir, "/").as_str());
                note.append(": ");
                note.append(e.as_str());
                d.entries = Vec::new();
                d.note = Some(note);
                d.reset_selection();
            },
        }
        self.dialog = Some(d);
        out.push(Act::Redraw);
    }

    /// The screens there are changed: a dialog that shows them shows these.
    pub fn screens_are(&mut self, screens: Vec<Entry<String>>, out: &mut Vec<Act<String>>)
        ensures
            turn(*final(self), *final(out)) == turn(*old(self), *old(out)).screens(views(screens@)),
    {
        broadcast use group_views;

        self.screens = screens;
        match self.dialog.take() {
            Some(mut d) => {
                if d.casting() {
                    d.entries = same_entries(&self.screens);
                    d.note = None;
                    d.reset_selection();
                    self.dialog = Some(d);
                    out.push(Act::Redraw);
                } else {
                    self.dialog = Some(d);
                }
            },
            None => {},
        }
    }

    /// A file was opened for the app under a grant, or could not be.
    pub fn opened(&mut self, docs: &str, name: &str, grant: Result<u64, String>, out: &mut Vec<Act<String>>)
        ensures
            turn(*final(self), *final(out)) == turn(*old(self), *old(out)).opened(
                docs@,
                name@,
                match grant {
                    Ok(id) => Ok(id),
                    Err(e) => Err(e@),
                },
            ),
    {
        broadcast use group_views;

        match grant {
            Err(e) => {
                let mut note = name.to_owned();
                note.append(": ");
                note.append(e.as_str());
                self.say(note, out);
            },
            Ok(id) => {
                let who = match &self.dialog {
                    Some(d) => d.req.who,
                    None => return,
                };
                let dir = join_path(docs, number(id).as_str());
                let path = join_path(dir.as_str(), name);
                out.push(Act::Chosen { who, path });
                self.close(out);
            },
        }
    }
}

impl Turn {
    /// The screens there are changed: a dialog that shows them shows these.
    pub open spec fn screens(self, screens: Seq<Entry<Seq<char>>>) -> Turn {
        let now = Turn { desk: Desk { screens, ..self.desk }, ..self };
        match self.desk.dialog {
            Some(d) => if d.is_casting() {
                now.with(relisted(d, screens, None)).act(Act::Redraw)
            } else {
                now
            },
            None => now,
        }
    }
}

/// A dialog with other entries.
pub open spec fn relisted(d: ShownView, entries: Seq<Entry<Seq<char>>>, note: Option<Seq<char>>) -> ShownView {
    reset(Dialog { entries, note, ..d })
}

} // verus!
