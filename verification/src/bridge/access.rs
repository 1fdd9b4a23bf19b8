//! Microphones and cameras: who was allowed what by the person, which questions are up, who
//! waits for the answer, and which connections end with the permission.
use vstd::prelude::*;
use vstd::string::*;

use crate::pw::{kind, kind_of, Device};
use crate::table::Table;
use crate::views::{group_views, lemma_add_push, views};

verus! {

/// What the person said, or did later.
#[derive(Clone, Copy, Debug, PartialEq, Eq, Structural)]
pub enum Answer {
    Granted,
    Refused,
    Revoked,
}

/// What is done, in order. `T` is text.
#[derive(Debug)]
pub enum Act<T> {
    /// What a user may capture now is these kinds.
    Write { uid: u32, kinds: T },
    /// PipeWire's question is answered.
    Answered { uid: u32, device: Device },
    /// Everything of this user goes at PipeWire.
    Forget { uid: u32 },
    /// Disconnect a remote.
    Drop { client: u32 },
    /// Put the question to the person; the id of the question, or a failure, comes back.
    Ask { app: T, uid: u32, device: Device },
    /// A question, or a consent, ends.
    Cancel { id: u64 },
    /// Who waits under this ticket hears the answer.
    Done { ticket: u64, allowed: bool },
}

impl View for Act<String> {
    type V = Act<Seq<char>>;

    open spec fn view(&self) -> Act<Seq<char>> {
        match *self {
            Act::Write { uid, kinds } => Act::Write { uid, kinds: kinds@ },
            Act::Answered { uid, device } => Act::Answered { uid, device },
            Act::Forget { uid } => Act::Forget { uid },
            Act::Drop { client } => Act::Drop { client },
            Act::Ask { app, uid, device } => Act::Ask { app: app@, uid, device },
            Act::Cancel { id } => Act::Cancel { id },
            Act::Done { ticket, allowed } => Act::Done { ticket, allowed },
        }
    }
}

pub type ActView = Act<Seq<char>>;

/// A user and a device as one number.
pub open spec fn key(uid: u32, device: Device) -> u64 {
    match device {
        Device::Microphone => (uid * 2) as u64,
        Device::Camera => (uid * 2 + 1) as u64,
    }
}

/// Different users, or different devices, have different numbers.
pub proof fn keys_differ(uid: u32, device: Device, uid2: u32, device2: Device)
    ensures
        key(uid, device) == key(uid2, device2) <==> (uid == uid2 && device == device2),
{
}

fn key_of(uid: u32, device: Device) -> (r: u64)
    ensures
        r == key(uid, device),
{
    match device {
        Device::Microphone => uid as u64 * 2,
        Device::Camera => uid as u64 * 2 + 1,
    }
}

/// Consents, questions, who waits, and camera connections.
#[derive(Debug)]
pub struct State {
    /// Each allowed device, by user and device, and the id of its consent.
    pub granted: Table<u64>,
    /// Questions that are up, by user and device.
    pub asking: Table<u64>,
    /// Who waits on a question, by user and device.
    pub waiting: Table<Vec<u64>>,
    /// Camera remotes handed out, by user: their PipeWire client ids.
    pub remotes: Table<Vec<u32>>,
}

/// The kinds a user may capture, as the metadata has them.
pub open spec fn kinds(granted: Map<u64, u64>, uid: u32) -> Seq<char> {
    let mic = granted.contains_key(key(uid, Device::Microphone));
    let camera = granted.contains_key(key(uid, Device::Camera));
    if mic && camera {
        kind_of(Device::Microphone) + " "@ + kind_of(Device::Camera)
    } else if mic {
        kind_of(Device::Microphone)
    } else if camera {
        kind_of(Device::Camera)
    } else {
        Seq::empty()
    }
}

/// Everyone who waits hears the answer.
pub open spec fn dones(tickets: Seq<u64>, allowed: bool) -> Seq<ActView> {
    tickets.map_values(|ticket: u64| Act::Done { ticket, allowed })
}

/// Every connection is ended.
pub open spec fn drops(clients: Seq<u32>) -> Seq<ActView> {
    clients.map_values(|client: u32| Act::Drop { client })
}

/// Who waits under `k`.
pub open spec fn waiting_at(waiting: Map<u64, Vec<u64>>, k: u64) -> Seq<u64> {
    if waiting.contains_key(k) {
        waiting[k]@
    } else {
        Seq::empty()
    }
}

/// The remotes of a user.
pub open spec fn remotes_of(remotes: Map<u64, Vec<u32>>, uid: u32) -> Seq<u32> {
    if remotes.contains_key(uid as u64) {
        remotes[uid as u64]@
    } else {
        Seq::empty()
    }
}

/// The end of what is under `k`, if there is something.
pub open spec fn cancelled(table: Map<u64, u64>, k: u64) -> Seq<ActView> {
    if table.contains_key(k) {
        seq![Act::Cancel { id: table[k] }]
    } else {
        Seq::empty()
    }
}

fn push_dones(acts: &mut Vec<Act<String>>, tickets: &Vec<u64>, allowed: bool)
    ensures
        views(final(acts)@) == views(old(acts)@) + dones(tickets@, allowed),
{
    broadcast use group_views;

    let ghost start = views(acts@);
    let mut i: usize = 0;
    assert(start + dones(tickets@.take(0), allowed) =~= start);
    while i < tickets.len()
        invariant
            i <= tickets@.len(),
            views(acts@) == start + dones(tickets@.take(i as int), allowed),
        decreases tickets@.len() - i,
    {
        acts.push(Act::Done { ticket: tickets[i], allowed });
        let ghost done: ActView = Act::Done { ticket: tickets@[i as int], allowed };
        assert(dones(tickets@.take(i + 1), allowed) =~= dones(
            tickets@.take(i as int),
            allowed,
        ).push(done));
        proof {
            assert(views(acts@) == (start + dones(tickets@.take(i as int), allowed)).push(done));
            lemma_add_push(start, dones(tickets@.take(i as int), allowed), done);
        }
        i = i + 1;
    }
    assert(tickets@.take(i as int) =~= tickets@);
}

fn push_drops(acts: &mut Vec<Act<String>>, clients: &Vec<u32>)
    ensures
        views(final(acts)@) == views(old(acts)@) + drops(clients@),
{
    broadcast use group_views;

    let ghost start = views(acts@);
    let mut i: usize = 0;
    assert(start + drops(clients@.take(0)) =~= start);
    while i < clients.len()
        invariant
            i <= clients@.len(),
            views(acts@) == start + drops(clients@.take(i as int)),
        decreases clients@.len() - i,
    {
        acts.push(Act::Drop { client: clients[i] });
        let ghost drop: ActView = Act::Drop { client: clients@[i as int] };
        assert(drops(clients@.take(i + 1)) =~= drops(clients@.take(i as int)).push(drop));
        proof {
            assert(views(acts@) == (start + drops(clients@.take(i as int))).push(drop));
            lemma_add_push(start, drops(clients@.take(i as int)), drop);
        }
        i = i + 1;
    }
    assert(clients@.take(i as int) =~= clients@);
}

fn push_cancel(acts: &mut Vec<Act<String>>, taken: Option<u64>)
    ensures
        views(final(acts)@) == views(old(acts)@) + match taken {
            Some(id) => seq![Act::<Seq<char>>::Cancel { id }],
            None => Seq::<ActView>::empty(),
        },
{
    broadcast use group_views;

    let ghost start = views(acts@);
    match taken {
        Some(id) => {
            acts.push(Act::Cancel { id });
            assert(views(acts@) =~= start + seq![Act::<Seq<char>>::Cancel { id }]);
        },
        None => {
            assert(start + Seq::<ActView>::empty() =~= start);
        },
    }
}

impl State {
    pub open spec fn wf(&self) -> bool {
        self.granted.wf() && self.asking.wf() && self.waiting.wf() && self.remotes.wf()
    }

    /// Nothing allowed, nothing asked.
    pub fn new() -> (r: State)
        ensures
            r.wf(),
            r.granted@ == Map::<u64, u64>::empty(),
            r.asking@ == Map::<u64, u64>::empty(),
            r.waiting@ == Map::<u64, Vec<u64>>::empty(),
            r.remotes@ == Map::<u64, Vec<u32>>::empty(),
    {
        State {
            granted: Table::new(),
            asking: Table::new(),
            waiting: Table::new(),
            remotes: Table::new(),
        }
    }

    /// Does the person allow it now?
    pub fn has(&self, uid: u32, device: Device) -> (r: bool)
        requires
            self.wf(),
        ensures
            r == self.granted@.contains_key(key(uid, device)),
    {
        self.granted.contains(key_of(uid, device))
    }

    fn kinds(&self, uid: u32) -> (r: String)
        requires
            self.wf(),
        ensures
            r@ == kinds(self.granted@, uid),
    {
        let mic = self.has(uid, Device::Microphone);
        let camera = self.has(uid, Device::Camera);
        if mic && camera {
            let mut out = kind(Device::Microphone).to_owned();
            out.append(" ");
            out.append(kind(Device::Camera));
            out
        } else if mic {
            kind(Device::Microphone).to_owned()
        } else if camera {
            kind(Device::Camera).to_owned()
        } else {
            String::new()
        }
    }

    /// WirePlumber has a stream waiting on this. `app` is the user's app; a user that is none
    /// is answered at once, with nothing.
    pub fn asked(&mut self, uid: u32, device: Device, app: Option<String>) -> (r: Vec<Act<String>>)
        requires
            old(self).wf(),
        ensures
            final(self).wf(),
            final(self).granted@ == old(self).granted@,
            final(self).asking@ == old(self).asking@,
            final(self).waiting@ == old(self).waiting@,
            final(self).remotes@ == old(self).remotes@,
            views(r@) == match app {
                None => seq![Act::<Seq<char>>::Answered { uid, device }],
                Some(app) => asked_acts(old(self).granted@, old(self).asking@, app@, uid, device, None),
            },
    {
        broadcast use group_views;

        match app {
            None => {
                let mut acts: Vec<Act<String>> = Vec::new();
                acts.push(Act::Answered { uid, device });
                assert(views(acts@) =~= seq![Act::<Seq<char>>::Answered { uid, device }]);
                acts
            },
            Some(app) => self.ask(app, uid, device, None),
        }
    }

    /// One question per app and device at a time; who asks under `done` hears the answer.
    pub fn ask(&mut self, app: String, uid: u32, device: Device, done: Option<u64>) -> (r: Vec<
        Act<String>,
    >)
        requires
            old(self).wf(),
        ensures
            final(self).wf(),
            final(self).granted@ == old(self).granted@,
            final(self).asking@ == old(self).asking@,
            final(self).remotes@ == old(self).remotes@,
            views(r@) == asked_acts(old(self).granted@, old(self).asking@, app@, uid, device, done),
            done is None || old(self).granted@.contains_key(key(uid, device)) ==> final(
                self).waiting@ == old(self).waiting@,
            done is Some && !old(self).granted@.contains_key(key(uid, device)) ==> {
                &&& final(self).waiting@.contains_key(key(uid, device))
                &&& final(self).waiting@[key(uid, device)]@ == waiting_at(
                    old(self).waiting@,
                    key(uid, device),
                ).push(done->0)
                &&& final(self).waiting@.remove(key(uid, device)) == old(self).waiting@.remove(
                    key(uid, device),
                )
            },
    {
        broadcast use group_views;

        let k = key_of(uid, device);
        let mut acts: Vec<Act<String>> = Vec::new();
        if self.granted.contains(k) {
            acts.push(Act::Answered { uid, device });
            if let Some(ticket) = done {
                acts.push(Act::Done { ticket, allowed: true });
            }
            assert(views(acts@) =~= asked_acts(
                old(self).granted@,
                old(self).asking@,
                app@,
                uid,
                device,
                done,
            ));
            return acts;
        }
        if let Some(ticket) = done {
            let ghost before = self.waiting@;
            let mut list: Vec<u64> = match self.waiting.remove(k) {
                Some(list) => list,
                None => Vec::new(),
            };
            assert(list@ =~= waiting_at(before, k));
            list.push(ticket);
            self.waiting.insert(k, list);
            assert(self.waiting@.remove(k) =~= before.remove(k));
        }
        if self.asking.contains(k) {
            return acts;
        }
        acts.push(Act::Ask { app, uid, device });
        assert(views(acts@) =~= asked_acts(
            old(self).granted@,
            old(self).asking@,
            app@,
            uid,
            device,
            done,
        ));
        acts
    }

    /// The question was put under an id, or could not be put.
    pub fn prompted(&mut self, uid: u32, device: Device, id: Option<u64>) -> (r: Vec<Act<String>>)
        requires
            old(self).wf(),
        ensures
            final(self).wf(),
            final(self).granted@ == old(self).granted@,
            final(self).remotes@ == old(self).remotes@,
            match id {
                Some(id) => {
                    &&& final(self).asking@ == old(self).asking@.insert(key(uid, device), id)
                    &&& final(self).waiting@ == old(self).waiting@
                    &&& r@.len() == 0
                },
                None => {
                    &&& final(self).asking@ == old(self).asking@
                    &&& final(self).waiting@ == old(self).waiting@.remove(key(uid, device))
                    &&& views(r@) == seq![Act::<Seq<char>>::Answered { uid, device }] + dones(
                        waiting_at(old(self).waiting@, key(uid, device)),
                        false,
                    )
                },
            },
    {
        broadcast use group_views;

        let k = key_of(uid, device);
        let mut acts: Vec<Act<String>> = Vec::new();
        match id {
            Some(id) => {
                self.asking.insert(k, id);
            },
            None => {
                let tickets = self.waited(k);
                acts.push(Act::Answered { uid, device });
                assert(views(acts@) =~= seq![Act::<Seq<char>>::Answered { uid, device }]);
                push_dones(&mut acts, &tickets, false);
            },
        }
        acts
    }

    fn waited(&mut self, k: u64) -> (r: Vec<u64>)
        requires
            old(self).wf(),
        ensures
            final(self).wf(),
            final(self).granted == old(self).granted,
            final(self).asking == old(self).asking,
            final(self).remotes == old(self).remotes,
            final(self).waiting@ == old(self).waiting@.remove(k),
            r@ == waiting_at(old(self).waiting@, k),
    {
        match self.waiting.remove(k) {
            Some(list) => list,
            None => {
                let empty: Vec<u64> = Vec::new();
                assert(empty@ =~= waiting_at(old(self).waiting@, k));
                empty
            },
        }
    }

    /// The person answered, or took an answer back.
    pub fn answered(&mut self, uid: u32, device: Device, answer: Answer) -> (r: Vec<Act<String>>)
        requires
            old(self).wf(),
        ensures
            final(self).wf(),
            match answer {
                Answer::Granted => {
                    &&& final(self).asking@ == old(self).asking@.remove(key(uid, device))
                    &&& final(self).granted@ == old(self).granted@.insert(
                        key(uid, device),
                        if old(self).asking@.contains_key(key(uid, device)) {
                            old(self).asking@[key(uid, device)]
                        } else {
                            0
                        },
                    )
                    &&& final(self).waiting@ == old(self).waiting@.remove(key(uid, device))
                    &&& final(self).remotes@ == old(self).remotes@
                    &&& views(r@) == seq![
                        Act::Write { uid, kinds: kinds(final(self).granted@, uid) },
                        Act::Answered { uid, device },
                    ] + dones(waiting_at(old(self).waiting@, key(uid, device)), true)
                },
                Answer::Refused => {
                    &&& final(self).asking@ == old(self).asking@.remove(key(uid, device))
                    &&& final(self).granted@ == old(self).granted@
                    &&& final(self).waiting@ == old(self).waiting@.remove(key(uid, device))
                    &&& final(self).remotes@ == old(self).remotes@
                    &&& views(r@) == seq![Act::<Seq<char>>::Answered { uid, device }] + dones(
                        waiting_at(old(self).waiting@, key(uid, device)),
                        false,
                    )
                },
                Answer::Revoked => {
                    &&& final(self).asking@ == old(self).asking@
                    &&& final(self).granted@ == old(self).granted@.remove(key(uid, device))
                    &&& final(self).waiting@ == old(self).waiting@
                    &&& final(self).remotes@ == if device == Device::Camera {
                        old(self).remotes@.remove(uid as u64)
                    } else {
                        old(self).remotes@
                    }
                    &&& views(r@) == seq![
                        Act::Write { uid, kinds: kinds(final(self).granted@, uid) },
                    ] + if device == Device::Camera {
                        drops(remotes_of(old(self).remotes@, uid))
                    } else {
                        Seq::empty()
                    }
                },
            },
    {
        broadcast use group_views;

        let k = key_of(uid, device);
        let mut acts: Vec<Act<String>> = Vec::new();
        match answer {
            Answer::Granted => {
                let id: u64 = match self.asking.remove(k) {
                    Some(id) => id,
                    None => 0,
                };
                self.granted.insert(k, id);
                acts.push(Act::Write { uid, kinds: self.kinds(uid) });
                acts.push(Act::Answered { uid, device });
                assert(views(acts@) =~= seq![
                    Act::Write { uid, kinds: kinds(self.granted@, uid) },
                    Act::Answered { uid, device },
                ]);
                let tickets = self.waited(k);
                push_dones(&mut acts, &tickets, true);
            },
            Answer::Refused => {
                let _ = self.asking.remove(k);
                acts.push(Act::Answered { uid, device });
                assert(views(acts@) =~= seq![Act::<Seq<char>>::Answered { uid, device }]);
                let tickets = self.waited(k);
                push_dones(&mut acts, &tickets, false);
            },
            Answer::Revoked => {
                let _ = self.granted.remove(k);
                acts.push(Act::Write { uid, kinds: self.kinds(uid) });
                assert(views(acts@) =~= seq![
                    Act::Write { uid, kinds: kinds(self.granted@, uid) },
                ]);
                if device == Device::Camera {
                    let clients = self.taken_remotes(uid);
                    push_drops(&mut acts, &clients);
                } else {
                    assert(views(acts@) + Seq::<ActView>::empty() =~= views(acts@));
                }
            },
        }
        acts
    }

    fn taken_remotes(&mut self, uid: u32) -> (r: Vec<u32>)
        requires
            old(self).wf(),
        ensures
            final(self).wf(),
            final(self).granted == old(self).granted,
            final(self).asking == old(self).asking,
            final(self).waiting == old(self).waiting,
            final(self).remotes@ == old(self).remotes@.remove(uid as u64),
            r@ == remotes_of(old(self).remotes@, uid),
    {
        match self.remotes.remove(uid as u64) {
            Some(list) => list,
            None => {
                let empty: Vec<u32> = Vec::new();
                assert(empty@ =~= remotes_of(old(self).remotes@, uid));
                empty
            },
        }
    }

    /// `AccessCamera`: the answer comes to `ticket`, at once if it stands already.
    pub fn camera(&mut self, app: String, uid: u32, ticket: u64) -> (r: Vec<Act<String>>)
        requires
            old(self).wf(),
        ensures
            final(self).wf(),
            final(self).granted@ == old(self).granted@,
            final(self).asking@ == old(self).asking@,
            final(self).remotes@ == old(self).remotes@,
            views(r@) == asked_acts(
                old(self).granted@,
                old(self).asking@,
                app@,
                uid,
                Device::Camera,
                Some(ticket),
            ),
            old(self).granted@.contains_key(key(uid, Device::Camera)) ==> final(self).waiting@
                == old(self).waiting@,
            !old(self).granted@.contains_key(key(uid, Device::Camera)) ==> {
                &&& final(self).waiting@.contains_key(key(uid, Device::Camera))
                &&& final(self).waiting@[key(uid, Device::Camera)]@ == waiting_at(
                    old(self).waiting@,
                    key(uid, Device::Camera),
                ).push(ticket)
                &&& final(self).waiting@.remove(key(uid, Device::Camera))
                    == old(self).waiting@.remove(key(uid, Device::Camera))
            },
    {
        self.ask(app, uid, Device::Camera, Some(ticket))
    }

    /// A camera remote went to `uid`: revoking the camera disconnects it.
    pub fn remote(&mut self, uid: u32, client: u32)
        requires
            old(self).wf(),
        ensures
            final(self).wf(),
            final(self).granted@ == old(self).granted@,
            final(self).asking@ == old(self).asking@,
            final(self).waiting@ == old(self).waiting@,
            final(self).remotes@.contains_key(uid as u64),
            final(self).remotes@[uid as u64]@ == remotes_of(old(self).remotes@, uid).push(client),
            final(self).remotes@.remove(uid as u64) == old(self).remotes@.remove(uid as u64),
    {
        let ghost before = self.remotes@;
        let mut list = self.taken_remotes(uid);
        list.push(client);
        self.remotes.insert(uid as u64, list);
        assert(self.remotes@.remove(uid as u64) =~= before.remove(uid as u64));
    }

    /// The app is gone: its consents end, its questions come down, its connections are cut.
    pub fn forget(&mut self, uid: u32) -> (r: Vec<Act<String>>)
        requires
            old(self).wf(),
        ensures
            final(self).wf(),
            final(self).granted@ == old(self).granted@.remove(key(uid, Device::Microphone)).remove(
                key(uid, Device::Camera),
            ),
            final(self).asking@ == old(self).asking@.remove(key(uid, Device::Microphone)).remove(
                key(uid, Device::Camera),
            ),
            final(self).waiting@ == unwaited(
                unwaited(
                    old(self).waiting@,
                    old(self).asking@,
                    key(uid, Device::Microphone),
                ),
                old(self).asking@,
                key(uid, Device::Camera),
            ),
            final(self).remotes@ == old(self).remotes@.remove(uid as u64),
            views(r@) == cancelled(old(self).granted@, key(uid, Device::Microphone)) + cancelled(
                old(self).granted@,
                key(uid, Device::Camera),
            ) + cancelled(old(self).asking@, key(uid, Device::Microphone)) + cancelled(
                old(self).asking@,
                key(uid, Device::Camera),
            ) + drops(remotes_of(old(self).remotes@, uid)) + seq![
                Act::<Seq<char>>::Forget { uid },
            ],
    {
        broadcast use group_views;

        proof {
            keys_differ(uid, Device::Microphone, uid, Device::Camera);
        }
        let mic = key_of(uid, Device::Microphone);
        let camera = key_of(uid, Device::Camera);
        let mut acts: Vec<Act<String>> = Vec::new();
        let a = self.granted.remove(mic);
        push_cancel(&mut acts, a);
        assert(views(acts@) =~= cancelled(old(self).granted@, mic));
        let b = self.granted.remove(camera);
        push_cancel(&mut acts, b);
        let c = self.asking.remove(mic);
        if c.is_some() {
            let _ = self.waiting.remove(mic);
        }
        push_cancel(&mut acts, c);
        let d = self.asking.remove(camera);
        if d.is_some() {
            let _ = self.waiting.remove(camera);
        }
        push_cancel(&mut acts, d);
        let clients = self.taken_remotes(uid);
        push_drops(&mut acts, &clients);
        let ghost before = views(acts@);
        acts.push(Act::Forget { uid });
        assert(views(acts@) =~= before + seq![Act::<Seq<char>>::Forget { uid }]);
        acts
    }
}

/// Who waited on a question that was up no longer does.
pub open spec fn unwaited(waiting: Map<u64, Vec<u64>>, asking: Map<u64, u64>, k: u64) -> Map<
    u64,
    Vec<u64>,
> {
    if asking.contains_key(k) {
        waiting.remove(k)
    } else {
        waiting
    }
}

/// What a question comes to: told at once where it is allowed already, nothing where it is up
/// already, else put to the person.
pub open spec fn asked_acts(
    granted: Map<u64, u64>,
    asking: Map<u64, u64>,
    app: Seq<char>,
    uid: u32,
    device: Device,
    done: Option<u64>,
) -> Seq<ActView> {
    if granted.contains_key(key(uid, device)) {
        match done {
            Some(ticket) => seq![
                Act::Answered { uid, device },
                Act::Done { ticket, allowed: true },
            ],
            None => seq![Act::Answered { uid, device }],
        }
    } else if asking.contains_key(key(uid, device)) {
        Seq::empty()
    } else {
        seq![Act::Ask { app, uid, device }]
    }
}

/// What is left once a user was forgotten.
pub open spec fn without(table: Map<u64, u64>, uid: u32) -> Map<u64, u64> {
    table.remove(key(uid, Device::Microphone)).remove(key(uid, Device::Camera))
}

/// A forgotten user is allowed nothing and asked nothing, and no other user's consent is
/// touched.
pub proof fn forgetting_ends_all_and_only_its_own(
    table: Map<u64, u64>,
    uid: u32,
    device: Device,
    other: u32,
    other_device: Device,
)
    requires
        other != uid,
    ensures
        !without(table, uid).contains_key(key(uid, device)),
        without(table, uid).contains_key(key(other, other_device)) == table.contains_key(
            key(other, other_device),
        ),
        table.contains_key(key(other, other_device)) ==> without(table, uid)[key(
            other,
            other_device,
        )] == table[key(other, other_device)],
        kinds(without(table, uid), uid) == Seq::<char>::empty(),
        kinds(without(table, uid), other) == kinds(table, other),
{
    keys_differ(uid, Device::Microphone, other, Device::Microphone);
    keys_differ(uid, Device::Microphone, other, Device::Camera);
    keys_differ(uid, Device::Camera, other, Device::Microphone);
    keys_differ(uid, Device::Camera, other, Device::Camera);
    keys_differ(uid, Device::Microphone, other, other_device);
    keys_differ(uid, Device::Camera, other, other_device);
}

/// A device that was taken back is not written among what its user may capture, and one that
/// was allowed is.
pub proof fn the_metadata_follows_the_answer(granted: Map<u64, u64>, uid: u32, device: Device, id: u64)
    ensures
        device == Device::Microphone ==> {
            let left = granted.remove(key(uid, device));
            kinds(left, uid) == Seq::<char>::empty() || kinds(left, uid) == kind_of(Device::Camera)
        },
        device == Device::Camera ==> {
            let left = granted.remove(key(uid, device));
            kinds(left, uid) == Seq::<char>::empty() || kinds(left, uid) == kind_of(
                Device::Microphone,
            )
        },
        kinds(granted.insert(key(uid, device), id), uid) == kind_of(device) || kinds(
            granted.insert(key(uid, device), id),
            uid,
        ) == kind_of(Device::Microphone) + " "@ + kind_of(Device::Camera),
{
    keys_differ(uid, Device::Microphone, uid, Device::Camera);
}

} // verus!
