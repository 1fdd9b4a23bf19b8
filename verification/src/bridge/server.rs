//! The trusted side of one app's connection: what a request of its shim comes to, and the line
//! to drv-portal that all apps share.
use vstd::prelude::*;
use vstd::string::*;

use super::wire::{clip, Cursor, ToServer, ToShim, MAX_TEXT};
use crate::bridge::access::Answer;
use crate::policy::rpc::{scheme_of, uri_scheme};
use crate::policy::AppPolicy;
use crate::portal::protocol::{Device, Response};
use crate::table::Table;
use crate::text::{chars_of, decimal, number, quote, quoted};
use crate::utf8::{byte_len, clipped, utf8_len};
use crate::views::{group_views, lemma_add_push, view_opt, views};

verus! {

/// Which PipeWire connection an app is to have.
#[derive(Clone, Copy, Debug, PartialEq, Eq, Structural)]
pub enum Remote {
    /// One that sees a session's node.
    Node { session: u64, node: u32 },
    /// One that sees the cameras.
    Cameras,
}

/// What a connection's streams may reach, as the metadata has it.
pub open spec fn mark_of(remote: Remote) -> Seq<char> {
    match remote {
        Remote::Node { node, .. } => "node:"@ + decimal(node as nat),
        Remote::Cameras => "camera"@,
    }
}

impl Remote {
    /// What the connection's streams may reach, as the metadata has it.
    pub fn mark(self) -> (r: String)
        ensures
            r@ == mark_of(self),
    {
        match self {
            Remote::Node { node, .. } => {
                let mut text = "node:".to_owned();
                text.append(number(node as u64).as_str());
                text
            },
            Remote::Cameras => "camera".to_owned(),
        }
    }
}

/// What is done, in order. `T` is text.
#[derive(Debug)]
pub enum Act<T> {
    /// To the shim.
    Send(ToShim),
    /// To the shim, with the connection's fd.
    SendRemote { req: u64 },
    /// To the shim: the request failed.
    Fail { req: u64, reason: T },
    /// Ask the person for a file.
    AskChoose { req: u64, title: T, save: Option<T> },
    /// Ask the person for a screen or a window.
    AskCast {
        req: u64,
        session: u64,
        cursor: Cursor,
        screens: bool,
        windows: bool,
        again: Option<T>,
    },
    /// Ask the person for the camera.
    AskCamera { req: u64 },
    /// Withdraw at drv-portal.
    Cancel { id: u64 },
    /// Disconnect a remote.
    Drop { client: u32 },
    /// Open a connection, and mark what it may reach.
    Open { req: u64, remote: Remote, mark: T },
    /// A camera remote went out: it ends with the camera's consent.
    CameraRemote { client: u32 },
    /// Have a URI's handler started.
    Launch { req: u64, uri: T },
    /// Show a notification.
    Notify { req: u64, replaces: u32, app: T, icon: T, summary: T, body: T },
    /// What the person allowed the app at drv-portal ends.
    ForgetConsents,
    /// What the person allowed the app of devices ends.
    ForgetDevices,
}

pub type ActView = Act<Seq<char>>;

impl View for Act<String> {
    type V = ActView;

    open spec fn view(&self) -> ActView {
        match *self {
            Act::Send(msg) => Act::Send(msg),
            Act::SendRemote { req } => Act::SendRemote { req },
            Act::Fail { req, reason } => Act::Fail { req, reason: reason@ },
            Act::AskChoose { req, title, save } => Act::AskChoose {
                req,
                title: title@,
                save: view_opt(save),
            },
            Act::AskCast { req, session, cursor, screens, windows, again } => Act::AskCast {
                req,
                session,
                cursor,
                screens,
                windows,
                again: view_opt(again),
            },
            Act::AskCamera { req } => Act::AskCamera { req },
            Act::Cancel { id } => Act::Cancel { id },
            Act::Drop { client } => Act::Drop { client },
            Act::Open { req, remote, mark } => Act::Open { req, remote, mark: mark@ },
            Act::CameraRemote { client } => Act::CameraRemote { client },
            Act::Launch { req, uri } => Act::Launch { req, uri: uri@ },
            Act::Notify { req, replaces, app, icon, summary, body } => Act::Notify {
                req,
                replaces,
                app: app@,
                icon: icon@,
                summary: summary@,
                body: body@,
            },
            Act::ForgetConsents => Act::ForgetConsents,
            Act::ForgetDevices => Act::ForgetDevices,
        }
    }
}

/// A character that is safe where markup is rendered.
pub open spec fn plain_char(c: char) -> Seq<char> {
    if c == '&' {
        "&amp;"@
    } else if c == '<' {
        "&lt;"@
    } else if c == '>' {
        "&gt;"@
    } else {
        seq![c]
    }
}

/// Text that is safe where markup is rendered.
pub open spec fn plain_text(s: Seq<char>) -> Seq<char>
    decreases s.len(),
{
    if s.len() == 0 {
        Seq::empty()
    } else {
        plain_text(s.drop_last()) + plain_char(s.last())
    }
}

/// Markup-safe for notification daemons that render markup.
pub fn plain(s: &str) -> (r: String)
    ensures
        r@ == plain_text(s@),
{
    let cs = chars_of(s);
    let mut out = String::new();
    let mut i: usize = 0;
    while i < cs.len()
        invariant
            i <= cs@.len(),
            cs@ == s@,
            out@ == plain_text(s@.take(i as int)),
        decreases cs@.len() - i,
    {
        assert(s@.take(i + 1).drop_last() =~= s@.take(i as int));
        let ghost before = out@;
        let c = cs[i];
        if c == '&' {
            out.append("&amp;");
        } else if c == '<' {
            out.append("&lt;");
        } else if c == '>' {
            out.append("&gt;");
        } else {
            out.push(c);
            assert(out@ =~= before + seq![c]);
        }
        i = i + 1;
    }
    assert(s@.take(i as int) =~= s@);
    out
}

/// No markup is left in plain text: it holds no angle bracket.
pub proof fn plain_text_has_no_tags(s: Seq<char>)
    ensures
        !plain_text(s).contains('<'),
        !plain_text(s).contains('>'),
    decreases s.len(),
{
    if s.len() > 0 {
        plain_text_has_no_tags(s.drop_last());
        let a = plain_text(s.drop_last());
        let b = plain_char(s.last());
        reveal_strlit("&amp;");
        reveal_strlit("&lt;");
        reveal_strlit("&gt;");
        assert(!b.contains('<') && !b.contains('>'));
        assert forall|i: int| 0 <= i < (a + b).len() implies #[trigger] (a + b)[i] != '<' && (a
            + b)[i] != '>' by {
            if i < a.len() {
                assert(a.contains(a[i]));
            } else {
                assert(b.contains(b[i - a.len()]));
                assert((a + b)[i] == b[i - a.len()]);
            }
        }
    }
}

/// A screencast of one app, by the shim's session id.
#[derive(Debug)]
pub struct Cast {
    /// The consent at drv-portal.
    pub portal_id: u64,
    /// The node, once the person consented and it streams.
    pub node: Option<u32>,
    /// The remotes handed out for it, disconnected when it ends.
    pub remotes: Vec<u32>,
}

/// One connected app.
#[derive(Debug)]
pub struct AppLink {
    pub app: AppPolicy,
    pub uid: u32,
    /// Requests waiting on the person, by the shim's number, with the id at drv-portal.
    pub pending: Table<u64>,
    pub casts: Table<Cast>,
}

/// Every remote is disconnected.
pub open spec fn drops(clients: Seq<u32>) -> Seq<ActView> {
    clients.map_values(|client: u32| Act::Drop { client })
}

/// A cast is over: drv-portal stops it, the remotes it handed out go.
pub open spec fn cast_ended(cast: Cast) -> Seq<ActView> {
    seq![ActView::Cancel { id: cast.portal_id }] + drops(cast.remotes@)
}

/// All the casts are over.
pub open spec fn casts_ended(rows: Seq<(u64, Cast)>) -> Seq<ActView>
    decreases rows.len(),
{
    if rows.len() == 0 {
        Seq::empty()
    } else {
        casts_ended(rows.drop_last()) + cast_ended(rows.last().1)
    }
}

/// All the requests are withdrawn.
pub open spec fn withdrawn(rows: Seq<(u64, u64)>) -> Seq<ActView> {
    rows.map_values(|row: (u64, u64)| Act::Cancel { id: row.1 })
}

/// The node of a session that streams.
pub open spec fn node_of(casts: Map<u64, Cast>, session: u64) -> Option<u32> {
    if casts.contains_key(session) {
        casts[session].node
    } else {
        None
    }
}

/// What a request of the shim comes to. `camera` is whether the app may use the camera,
/// `cameras` whether there is one.
pub open spec fn acts_of(link: AppLink, msg: ToServer<Seq<char>>, camera: bool, cameras: bool) -> Seq<
    ActView,
> {
    match msg {
        ToServer::Hello { .. } => Seq::empty(),
        ToServer::Choose { req, title, save } => seq![
            Act::AskChoose { req, title: clipped(title, MAX_TEXT as nat), save },
        ],
        ToServer::Cast { req, session, cursor, screens, windows, again } => if link.casts@.contains_key(
            session,
        ) {
            seq![Act::Fail { req, reason: "the session was started already"@ }]
        } else {
            seq![Act::AskCast { req, session, cursor, screens, windows, again }]
        },
        ToServer::CastRemote { req, session } => match node_of(link.casts@, session) {
            None => seq![Act::Fail { req, reason: "the session is not streaming"@ }],
            Some(node) => seq![
                Act::Open {
                    req,
                    remote: Remote::Node { session, node },
                    mark: mark_of(Remote::Node { session, node }),
                },
            ],
        },
        ToServer::CastClose { session } => if link.casts@.contains_key(session) {
            cast_ended(link.casts@[session])
        } else {
            Seq::empty()
        },
        ToServer::Camera { req } => if camera {
            seq![Act::Send(ToShim::Granted { req })]
        } else {
            seq![Act::AskCamera { req }]
        },
        ToServer::CameraRemote { req } => if camera {
            seq![
                Act::Open { req, remote: Remote::Cameras, mark: mark_of(Remote::Cameras) },
            ]
        } else {
            seq![Act::Fail { req, reason: "the camera was not allowed"@ }]
        },
        ToServer::CameraPresent { req } => seq![
            Act::Send(ToShim::Present { req, present: cameras }),
        ],
        ToServer::Open { req, uri } => if scheme_of(uri) is None {
            seq![
                Act::Fail {
                    req,
                    reason: "not a URI ("@ + decimal(byte_len(uri)) + " bytes)"@,
                },
            ]
        } else {
            seq![Act::Launch { req, uri }]
        },
        ToServer::Notify { req, replaces, summary, body } => seq![
            Act::Notify {
                req,
                replaces,
                app: link.app@.name,
                icon: match link.app@.icon {
                    Some(icon) => icon,
                    None => Seq::empty(),
                },
                summary: link.app@.name + ": "@ + clipped(summary, MAX_TEXT as nat),
                body: plain_text(clipped(body, MAX_TEXT as nat)),
            },
        ],
        ToServer::Cancel { req } => if link.pending@.contains_key(req) {
            seq![Act::Cancel { id: link.pending@[req] }]
        } else {
            Seq::empty()
        },
    }
}

fn one(act: Act<String>) -> (r: Vec<Act<String>>)
    ensures
        views(r@) == seq![act@],
{
    broadcast use group_views;

    let ghost v = act@;
    let mut acts: Vec<Act<String>> = Vec::new();
    acts.push(act);
    assert(views(acts@) =~= seq![v]);
    acts
}

fn fail(req: u64, reason: String) -> (r: Vec<Act<String>>)
    ensures
        views(r@) == seq![ActView::Fail { req, reason: reason@ }],
{
    one(Act::Fail { req, reason })
}

fn none() -> (r: Vec<Act<String>>)
    ensures
        views(r@) == Seq::<ActView>::empty(),
        r@.len() == 0,
{
    broadcast use group_views;

    Vec::new()
}

fn push_ended(acts: &mut Vec<Act<String>>, cast: &Cast)
    ensures
        views(final(acts)@) == views(old(acts)@) + cast_ended(*cast),
{
    broadcast use group_views;

    let ghost start = views(acts@);
    acts.push(Act::Cancel { id: cast.portal_id });
    let ghost head = start + seq![ActView::Cancel { id: cast.portal_id }];
    assert(views(acts@) =~= head);
    let mut i: usize = 0;
    assert(head + drops(cast.remotes@.take(0)) =~= head);
    while i < cast.remotes.len()
        invariant
            i <= cast.remotes@.len(),
            views(acts@) == head + drops(cast.remotes@.take(i as int)),
        decreases cast.remotes@.len() - i,
    {
        let ghost drop: ActView = Act::Drop { client: cast.remotes@[i as int] };
        acts.push(Act::Drop { client: cast.remotes[i] });
        proof {
            assert(drops(cast.remotes@.take(i + 1)) =~= drops(cast.remotes@.take(i as int)).push(
                drop,
            ));
            assert(views(acts@) == (head + drops(cast.remotes@.take(i as int))).push(drop));
            lemma_add_push(head, drops(cast.remotes@.take(i as int)), drop);
        }
        i = i + 1;
    }
    assert(cast.remotes@.take(i as int) =~= cast.remotes@);
    assert(head + drops(cast.remotes@) =~= start + cast_ended(*cast));
}

impl AppLink {
    pub open spec fn wf(&self) -> bool {
        self.pending.wf() && self.casts.wf()
    }

    /// An app that just connected.
    pub fn new(app: AppPolicy, uid: u32) -> (r: AppLink)
        ensures
            r.wf(),
            r.app == app,
            r.uid == uid,
            r.pending@ == Map::<u64, u64>::empty(),
            r.casts@ == Map::<u64, Cast>::empty(),
    {
        AppLink { app, uid, pending: Table::new(), casts: Table::new() }
    }

    /// A request of the shim.
    pub fn on(&mut self, msg: ToServer<String>, camera: bool, cameras: bool) -> (r: Vec<Act<String>>)
        requires
            old(self).wf(),
        ensures
            final(self).wf(),
            final(self).app == old(self).app,
            final(self).uid == old(self).uid,
            views(r@) == acts_of(*old(self), msg@, camera, cameras),
            final(self).pending@ == match msg {
                ToServer::Cancel { req } => old(self).pending@.remove(req),
                _ => old(self).pending@,
            },
            final(self).casts@ == match msg {
                ToServer::CastClose { session } => old(self).casts@.remove(session),
                _ => old(self).casts@,
            },
    {
        broadcast use group_views;

        match msg {
            ToServer::Hello { .. } => none(),
            ToServer::Choose { req, title, save } => {
                let title = clip(title.as_str()).to_owned();
                one(Act::AskChoose { req, title, save })
            },
            ToServer::Cast { req, session, cursor, screens, windows, again } => {
                if self.casts.contains(session) {
                    return fail(req, "the session was started already".to_owned());
                }
                one(Act::AskCast { req, session, cursor, screens, windows, again })
            },
            ToServer::CastRemote { req, session } => {
                let node = match self.casts.get(session) {
                    Some(c) => c.node,
                    None => None,
                };
                match node {
                    None => fail(req, "the session is not streaming".to_owned()),
                    Some(node) => {
                        let remote = Remote::Node { session, node };
                        one(Act::Open { req, remote, mark: remote.mark() })
                    },
                }
            },
            ToServer::CastClose { session } => {
                let mut acts = none();
                if let Some(cast) = self.casts.remove(session) {
                    push_ended(&mut acts, &cast);
                    assert(views(acts@) =~= cast_ended(cast));
                }
                acts
            },
            ToServer::Camera { req } => {
                if camera {
                    one(Act::Send(ToShim::Granted { req }))
                } else {
                    one(Act::AskCamera { req })
                }
            },
            ToServer::CameraRemote { req } => {
                if camera {
                    one(Act::Open { req, remote: Remote::Cameras, mark: Remote::Cameras.mark() })
                } else {
                    fail(req, "the camera was not allowed".to_owned())
                }
            },
            ToServer::CameraPresent { req } => one(
                Act::Send(ToShim::Present { req, present: cameras }),
            ),
            ToServer::Open { req, uri } => {
                if uri_scheme(uri.as_str()).is_none() {
                    let mut text = "not a URI (".to_owned();
                    text.append(number(utf8_len(uri.as_str()) as u64).as_str());
                    text.append(" bytes)");
                    return fail(req, text);
                }
                one(Act::Launch { req, uri })
            },
            ToServer::Notify { req, replaces, summary, body } => {
                let mut shown = self.app.name.clone();
                shown.append(": ");
                shown.append(clip(summary.as_str()));
                let icon = match &self.app.icon {
                    Some(icon) => icon.clone(),
                    None => String::new(),
                };
                one(
                    Act::Notify {
                        req,
                        replaces,
                        app: self.app.name.clone(),
                        icon,
                        summary: shown,
                        body: plain(clip(body.as_str())),
                    },
                )
            },
            ToServer::Cancel { req } => match self.pending.remove(req) {
                Some(id) => one(Act::Cancel { id }),
                None => none(),
            },
        }
    }

    /// The question for a file was put at drv-portal, or could not be.
    pub fn choose_asked(&mut self, req: u64, asked: Result<u64, String>) -> (r: Vec<Act<String>>)
        requires
            old(self).wf(),
        ensures
            final(self).wf(),
            final(self).app == old(self).app,
            final(self).uid == old(self).uid,
            final(self).casts == old(self).casts,
            match asked {
                Ok(id) => final(self).pending@ == old(self).pending@.insert(req, id) && r@.len()
                    == 0,
                Err(e) => final(self).pending == old(self).pending && views(r@) == seq![
                    ActView::Fail { req, reason: e@ },
                ],
            },
    {
        match asked {
            Ok(id) => {
                self.pending.insert(req, id);
                none()
            },
            Err(e) => fail(req, e),
        }
    }

    /// The question for a screen was put at drv-portal, or could not be.
    pub fn cast_asked(&mut self, req: u64, session: u64, asked: Result<u64, String>) -> (r: Vec<
        Act<String>,
    >)
        requires
            old(self).wf(),
        ensures
            final(self).wf(),
            final(self).app == old(self).app,
            final(self).uid == old(self).uid,
            match asked {
                Ok(id) => {
                    &&& final(self).pending@ == old(self).pending@.insert(req, id)
                    &&& final(self).casts@.contains_key(session)
                    &&& final(self).casts@[session].portal_id == id
                    &&& final(self).casts@[session].node is None
                    &&& final(self).casts@[session].remotes@.len() == 0
                    &&& final(self).casts@.remove(session) == old(self).casts@.remove(session)
                    &&& r@.len() == 0
                },
                Err(e) => {
                    &&& final(self).pending == old(self).pending
                    &&& final(self).casts == old(self).casts
                    &&& views(r@) == seq![ActView::Fail { req, reason: e@ }]
                },
            },
    {
        match asked {
            Ok(id) => {
                self.pending.insert(req, id);
                self.casts.insert(session, Cast { portal_id: id, node: None, remotes: Vec::new() });
                assert(self.casts@.remove(session) =~= old(self).casts@.remove(session));
                none()
            },
            Err(e) => fail(req, e),
        }
    }

    /// drv-portal's answer to the question for a file.
    pub fn chosen(&mut self, req: u64, resp: Response) -> (r: Vec<Act<String>>)
        requires
            old(self).wf(),
        ensures
            final(self).wf(),
            final(self).app == old(self).app,
            final(self).uid == old(self).uid,
            final(self).casts == old(self).casts,
            final(self).pending@ == old(self).pending@.remove(req),
            views(r@) == match resp {
                Response::Chosen { paths, .. } => seq![
                    ActView::Send(ToShim::Files { req, paths }),
                ],
                Response::Cancelled { .. } => seq![ActView::Send(ToShim::Cancelled { req })],
                Response::Failed { reason, .. } => seq![
                    ActView::Send(ToShim::Failed { req, reason }),
                ],
                _ => Seq::empty(),
            },
    {
        let _ = self.pending.remove(req);
        match resp {
            Response::Chosen { paths, .. } => one(Act::Send(ToShim::Files { req, paths })),
            Response::Cancelled { .. } => one(Act::Send(ToShim::Cancelled { req })),
            Response::Failed { reason, .. } => one(Act::Send(ToShim::Failed { req, reason })),
            _ => none(),
        }
    }

    /// What drv-portal says of a cast, from its start to its end.
    pub fn cast_heard(&mut self, req: u64, session: u64, resp: Response) -> (r: Vec<Act<String>>)
        requires
            old(self).wf(),
        ensures
            final(self).wf(),
            final(self).app == old(self).app,
            final(self).uid == old(self).uid,
            match resp {
                Response::Cast { node_id, source, width, height, token, .. } => {
                    &&& final(self).pending@ == old(self).pending@.remove(req)
                    &&& if old(self).casts@.contains_key(session) {
                        &&& final(self).casts@.contains_key(session)
                        &&& final(self).casts@[session] == (Cast {
                            node: Some(node_id),
                            ..old(self).casts@[session]
                        })
                        &&& final(self).casts@.remove(session) == old(self).casts@.remove(session)
                        &&& views(r@) == seq![
                            ActView::Send(
                                ToShim::Cast { req, node_id, source, width, height, token },
                            ),
                        ]
                    } else {
                        // Closed meanwhile; drv-portal has the Cancel.
                        final(self).casts == old(self).casts && r@.len() == 0
                    }
                },
                Response::Cancelled { .. } => {
                    &&& final(self).pending@ == old(self).pending@.remove(req)
                    &&& final(self).casts == old(self).casts
                    &&& views(r@) == seq![ActView::Send(ToShim::Cancelled { req })]
                },
                Response::Failed { reason, .. } => {
                    &&& final(self).pending@ == old(self).pending@.remove(req)
                    &&& final(self).casts == old(self).casts
                    &&& views(r@) == seq![ActView::Send(ToShim::Failed { req, reason })]
                },
                Response::Closed { .. } => {
                    &&& final(self).pending == old(self).pending
                    &&& final(self).casts@ == old(self).casts@.remove(session)
                    &&& views(r@) == if old(self).casts@.contains_key(session) {
                        cast_ended(old(self).casts@[session]) + seq![
                            ActView::Send(ToShim::CastClosed { session }),
                        ]
                    } else {
                        Seq::empty()
                    }
                },
                _ => *final(self) == *old(self) && r@.len() == 0,
            },
    {
        broadcast use group_views;

        match resp {
            Response::Cast { node_id, source, width, height, token, .. } => {
                let _ = self.pending.remove(req);
                match self.casts.remove(session) {
                    None => none(),
                    Some(cast) => {
                        self.casts.insert(
                            session,
                            Cast {
                                portal_id: cast.portal_id,
                                node: Some(node_id),
                                remotes: cast.remotes,
                            },
                        );
                        assert(self.casts@.remove(session) =~= old(self).casts@.remove(session));
                        one(Act::Send(ToShim::Cast { req, node_id, source, width, height, token }))
                    },
                }
            },
            Response::Cancelled { .. } => {
                let _ = self.pending.remove(req);
                one(Act::Send(ToShim::Cancelled { req }))
            },
            Response::Failed { reason, .. } => {
                let _ = self.pending.remove(req);
                one(Act::Send(ToShim::Failed { req, reason }))
            },
            Response::Closed { .. } => {
                let mut acts = none();
                if let Some(cast) = self.casts.remove(session) {
                    push_ended(&mut acts, &cast);
                    assert(views(acts@) =~= cast_ended(cast));
                    acts.push(Act::Send(ToShim::CastClosed { session }));
                    assert(views(acts@) =~= cast_ended(cast) + seq![
                        ActView::Send(ToShim::CastClosed { session }),
                    ]);
                }
                acts
            },
            _ => none(),
        }
    }

    /// A connection was opened and marked, or could not be.
    pub fn opened(&mut self, req: u64, remote: Remote, client: Result<u32, String>) -> (r: Vec<
        Act<String>,
    >)
        requires
            old(self).wf(),
        ensures
            final(self).wf(),
            final(self).app == old(self).app,
            final(self).uid == old(self).uid,
            final(self).pending == old(self).pending,
            match client {
                Err(e) => final(self).casts == old(self).casts && views(r@) == seq![
                    ActView::Fail { req, reason: e@ },
                ],
                Ok(client) => match remote {
                    Remote::Node { session, .. } => {
                        &&& views(r@) == seq![ActView::SendRemote { req }]
                        &&& final(self).casts@.dom() == old(self).casts@.dom()
                        &&& final(self).casts@.remove(session) == old(self).casts@.remove(session)
                        &&& old(self).casts@.contains_key(session) ==> {
                            let was = old(self).casts@[session];
                            let is = final(self).casts@[session];
                            is.portal_id == was.portal_id && is.node == was.node && is.remotes@
                                == was.remotes@.push(client)
                        }
                    },
                    Remote::Cameras => {
                        &&& final(self).casts == old(self).casts
                        &&& views(r@) == seq![
                            ActView::CameraRemote { client },
                            ActView::SendRemote { req },
                        ]
                    },
                },
            },
    {
        broadcast use group_views;

        match client {
            Err(e) => fail(req, e),
            Ok(client) => match remote {
                Remote::Node { session, .. } => {
                    if let Some(cast) = self.casts.remove(session) {
                        let mut remotes = cast.remotes;
                        remotes.push(client);
                        self.casts.insert(
                            session,
                            Cast { portal_id: cast.portal_id, node: cast.node, remotes },
                        );
                    }
                    assert(self.casts@.remove(session) =~= old(self).casts@.remove(session));
                    assert(self.casts@.dom() =~= old(self).casts@.dom());
                    one(Act::SendRemote { req })
                },
                Remote::Cameras => {
                    let mut acts = none();
                    acts.push(Act::CameraRemote { client });
                    acts.push(Act::SendRemote { req });
                    assert(views(acts@) =~= seq![
                        ActView::CameraRemote { client },
                        ActView::SendRemote { req },
                    ]);
                    acts
                },
            },
        }
    }

    /// The app disconnected: what drv-portal holds for it goes, dialogs down, casts stopped.
    pub fn gone(&mut self) -> (r: Vec<Act<String>>)
        requires
            old(self).wf(),
        ensures
            final(self).wf(),
            final(self).app == old(self).app,
            final(self).uid == old(self).uid,
            final(self).pending@ == Map::<u64, u64>::empty(),
            final(self).casts@ == Map::<u64, Cast>::empty(),
            views(r@) == withdrawn(old(self).pending.rows@) + casts_ended(old(self).casts.rows@)
                + seq![ActView::ForgetConsents, ActView::ForgetDevices],
    {
        broadcast use group_views;

        let mut acts = none();
        let mut i: usize = 0;
        let ghost rows = self.pending.rows@;
        assert(withdrawn(rows.take(0)) =~= Seq::<ActView>::empty());
        while i < self.pending.rows.len()
            invariant
                i <= self.pending.rows@.len(),
                rows == self.pending.rows@,
                *self == *old(self),
                views(acts@) == withdrawn(rows.take(i as int)),
            decreases self.pending.rows@.len() - i,
        {
            acts.push(Act::Cancel { id: self.pending.rows[i].1 });
            assert(withdrawn(rows.take(i + 1)) =~= withdrawn(rows.take(i as int)).push(
                ActView::Cancel { id: rows[i as int].1 },
            ));
            i = i + 1;
        }
        assert(rows.take(i as int) =~= rows);
        let ghost first = withdrawn(rows);
        let ghost casts = self.casts.rows@;
        let mut j: usize = 0;
        assert(first + casts_ended(casts.take(0)) =~= first);
        while j < self.casts.rows.len()
            invariant
                j <= self.casts.rows@.len(),
                casts == self.casts.rows@,
                *self == *old(self),
                views(acts@) == first + casts_ended(casts.take(j as int)),
            decreases self.casts.rows@.len() - j,
        {
            push_ended(&mut acts, &self.casts.rows[j].1);
            assert(casts.take(j + 1).drop_last() =~= casts.take(j as int));
            assert(views(acts@) =~= first + casts_ended(casts.take(j + 1)));
            j = j + 1;
        }
        assert(casts.take(j as int) =~= casts);
        let ghost both = views(acts@);
        acts.push(Act::ForgetConsents);
        acts.push(Act::ForgetDevices);
        assert(views(acts@) =~= both + seq![ActView::ForgetConsents, ActView::ForgetDevices]);
        self.pending = Table::new();
        self.casts = Table::new();
        acts
    }
}

/// The answer to the question for the camera, for the shim.
pub fn camera_answer(req: u64, allowed: bool) -> (r: ToShim)
    ensures
        r == if allowed {
            ToShim::Granted { req }
        } else {
            ToShim::Cancelled { req }
        },
{
    if allowed {
        ToShim::Granted { req }
    } else {
        ToShim::Cancelled { req }
    }
}

/// What came of having a URI's handler started.
pub fn launched(req: u64, uri: &str, outcome: Result<u32, String>) -> (r: Vec<Act<String>>)
    ensures
        views(r@) == match outcome {
            Ok(_) => seq![ActView::Send(ToShim::Done { req })],
            Err(e) => seq![
                ActView::Fail { req, reason: "OpenURI "@ + quoted(uri@) + ": "@ + e@ },
            ],
        },
{
    match outcome {
        Ok(_) => one(Act::Send(ToShim::Done { req })),
        Err(e) => {
            let mut text = "OpenURI ".to_owned();
            text.append(quote(uri).as_str());
            text.append(": ");
            text.append(e.as_str());
            fail(req, text)
        },
    }
}

/// What came of showing a notification.
pub fn notified(req: u64, outcome: Result<u32, String>) -> (r: Vec<Act<String>>)
    ensures
        views(r@) == match outcome {
            Ok(id) => seq![ActView::Send(ToShim::Notified { req, id })],
            Err(e) => seq![ActView::Fail { req, reason: "notification: "@ + e@ }],
        },
{
    match outcome {
        Ok(id) => one(Act::Send(ToShim::Notified { req, id })),
        Err(e) => {
            let mut text = "notification: ".to_owned();
            text.append(e.as_str());
            fail(req, text)
        },
    }
}

/// Who hears an answer of drv-portal.
#[derive(Clone, Copy, Debug, PartialEq, Eq, Structural)]
pub enum Asker {
    Choose { link: u64, req: u64 },
    Cast { link: u64, req: u64, session: u64 },
    Grant { uid: u32, device: Device },
}

/// The request an answer is about.
pub open spec fn answered_id(resp: Response) -> Option<u64> {
    match resp {
        Response::Chosen { id, .. } => Some(id),
        Response::Cast { id, .. } => Some(id),
        Response::Granted { id } => Some(id),
        Response::Closed { id } => Some(id),
        Response::Cancelled { id } => Some(id),
        Response::Failed { id, .. } => Some(id),
        Response::Hello { .. } => None,
        Response::Pin { .. } => None,
    }
}

/// An answer after which more may come.
pub open spec fn goes_on(resp: Response) -> bool {
    resp is Cast || resp is Granted
}

/// The line to drv-portal. Requests carry an id; answers find their asker here.
#[derive(Debug)]
pub struct Portal {
    pub next: u64,
    /// One answer each: the choosers.
    pub waiting: Table<Asker>,
    /// Casts and grants hear more than once.
    pub casts: Table<Asker>,
}

/// Who hears an answer.
pub open spec fn hears(portal: Portal, resp: Response) -> Option<Asker> {
    match answered_id(resp) {
        None => None,
        Some(id) => if portal.waiting@.contains_key(id) {
            Some(portal.waiting@[id])
        } else if portal.casts@.contains_key(id) {
            Some(portal.casts@[id])
        } else {
            None
        },
    }
}

impl Portal {
    pub open spec fn wf(&self) -> bool {
        self.waiting.wf() && self.casts.wf()
    }

    /// A line on which nothing was asked yet.
    pub fn new() -> (r: Portal)
        ensures
            r.wf(),
            r.next == 1,
            r.waiting@ == Map::<u64, Asker>::empty(),
            r.casts@ == Map::<u64, Asker>::empty(),
    {
        Portal { next: 1, waiting: Table::new(), casts: Table::new() }
    }

    /// A question is put: its number, under which `asker` hears the answer.
    pub fn ask(&mut self, asker: Asker) -> (r: u64)
        requires
            old(self).wf(),
        ensures
            final(self).wf(),
            r == old(self).next,
            final(self).next == if r == u64::MAX {
                0
            } else {
                (r + 1) as u64
            },
            asker is Choose ==> final(self).waiting@ == old(self).waiting@.insert(r, asker)
                && final(self).casts == old(self).casts,
            !(asker is Choose) ==> final(self).casts@ == old(self).casts@.insert(r, asker)
                && final(self).waiting == old(self).waiting,
    {
        let id = self.next;
        self.next = id.wrapping_add(1);
        match asker {
            Asker::Choose { .. } => {
                self.waiting.insert(id, asker);
            },
            _ => {
                self.casts.insert(id, asker);
            },
        }
        id
    }

    /// A question could not be sent, or is withdrawn: nobody waits for it.
    pub fn cancel(&mut self, id: u64)
        requires
            old(self).wf(),
        ensures
            final(self).wf(),
            final(self).next == old(self).next,
            final(self).waiting@ == old(self).waiting@.remove(id),
            final(self).casts@ == old(self).casts@.remove(id),
    {
        let _ = self.waiting.remove(id);
        let _ = self.casts.remove(id);
    }

    /// An answer of drv-portal finds its asker, who hears it; one after which nothing comes
    /// is the last.
    pub fn dispatch(&mut self, resp: &Response) -> (r: Option<Asker>)
        requires
            old(self).wf(),
        ensures
            final(self).wf(),
            final(self).next == old(self).next,
            r == hears(*old(self), *resp),
            final(self).waiting@ == match answered_id(*resp) {
                Some(id) => old(self).waiting@.remove(id),
                None => old(self).waiting@,
            },
            final(self).casts@ == match answered_id(*resp) {
                Some(id) => if !old(self).waiting@.contains_key(id) && !goes_on(*resp) {
                    old(self).casts@.remove(id)
                } else {
                    old(self).casts@
                },
                None => old(self).casts@,
            },
    {
        let id: u64 = match resp {
            Response::Chosen { id, .. } => *id,
            Response::Cast { id, .. } => *id,
            Response::Granted { id } => *id,
            Response::Closed { id } => *id,
            Response::Cancelled { id } => *id,
            Response::Failed { id, .. } => *id,
            Response::Hello { .. } => return None,
            Response::Pin { .. } => return None,
        };
        if let Some(asker) = self.waiting.remove(id) {
            return Some(asker);
        }
        let more = match resp {
            Response::Cast { .. } => true,
            Response::Granted { .. } => true,
            _ => false,
        };
        if more {
            match self.casts.get(id) {
                Some(asker) => Some(*asker),
                None => None,
            }
        } else {
            self.casts.remove(id)
        }
    }
}

/// What drv-portal's answer to the question for a device means.
pub fn device_answer(resp: &Response) -> (r: Option<Answer>)
    ensures
        r == match *resp {
            Response::Granted { .. } => Some(Answer::Granted),
            Response::Closed { .. } => Some(Answer::Revoked),
            Response::Cancelled { .. } => Some(Answer::Refused),
            Response::Failed { .. } => Some(Answer::Refused),
            _ => None,
        },
{
    match resp {
        Response::Granted { .. } => Some(Answer::Granted),
        Response::Closed { .. } => Some(Answer::Revoked),
        Response::Cancelled { .. } => Some(Answer::Refused),
        Response::Failed { .. } => Some(Answer::Refused),
        _ => None,
    }
}

/// A notification is shown under the app's manifest name, whatever the app says.
pub proof fn notifications_carry_the_manifest_name(
    link: AppLink,
    req: u64,
    replaces: u32,
    summary: Seq<char>,
    body: Seq<char>,
    camera: bool,
    cameras: bool,
)
    ensures
        acts_of(link, ToServer::Notify { req, replaces, summary, body }, camera, cameras).len() == 1,
        acts_of(link, ToServer::Notify { req, replaces, summary, body }, camera, cameras)[0] matches Act::Notify {
            app,
            summary: shown,
            body: text,
            ..
        } && app == link.app@.name && link.app@.name.is_prefix_of(shown) && !text.contains('<'),
{
    plain_text_has_no_tags(clipped(body, MAX_TEXT as nat));
    let shown = link.app@.name + ": "@ + clipped(summary, MAX_TEXT as nat);
    assert(shown.subrange(0, link.app@.name.len() as int) =~= link.app@.name);
}

} // verus!
