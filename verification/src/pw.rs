//! PipeWire's side of microphones and cameras: the grants written into WirePlumber's metadata,
//! its questions, the clients and cameras it tells of, and what a connection handed to an app
//! may see.
use vstd::prelude::*;
use vstd::string::*;

use crate::table::{has_row, lemma_row, row_of, Table};
use crate::text::{
    after_prefix, chars_of, cut, decimal, number, read_unsigned, same_text, split_once, string_of,
    strip_front, unsigned,
};
use crate::views::{group_views, view_opt, views};

verus! {

/// WirePlumber's metadata object for this.
pub const METADATA: &'static str = "drv-access";

/// The value a client came in with through the apps' socket.
pub const ACCESS: &'static str = "drv-app";

/// A device an app may be let use: the microphone stands for any audio capture, the camera for
/// any video source.
#[derive(Clone, Copy, Debug, PartialEq, Eq, Structural)]
pub enum Device {
    Microphone,
    Camera,
}

/// What the metadata calls a device.
pub open spec fn kind_of(device: Device) -> Seq<char> {
    match device {
        Device::Microphone => "mic"@,
        Device::Camera => "camera"@,
    }
}

/// What the metadata calls a device.
pub fn kind(device: Device) -> (r: &'static str)
    ensures
        r@ == kind_of(device),
{
    match device {
        Device::Microphone => "mic",
        Device::Camera => "camera",
    }
}

/// The device the metadata means.
pub fn device(kind: &str) -> (r: Option<Device>)
    ensures
        match r {
            Some(d) => kind@ == kind_of(d),
            None => kind@ != kind_of(Device::Microphone) && kind@ != kind_of(Device::Camera),
        },
{
    if same_text(kind, "mic") {
        Some(Device::Microphone)
    } else if same_text(kind, "camera") {
        Some(Device::Camera)
    } else {
        None
    }
}

/// The two devices have two names.
pub proof fn kinds_differ()
    ensures
        kind_of(Device::Microphone) != kind_of(Device::Camera),
{
    reveal_strlit("mic");
    reveal_strlit("camera");
    assert(kind_of(Device::Microphone).len() != kind_of(Device::Camera).len());
}

/// The metadata key of what a user may capture.
pub open spec fn grant_key(uid: nat) -> Seq<char> {
    "grant:"@ + decimal(uid)
}

/// The metadata key of a question.
pub open spec fn request_key(uid: nat, device: Device) -> Seq<char> {
    "request:"@ + decimal(uid) + ":"@ + kind_of(device)
}

/// A metadata key read as a question.
pub open spec fn asks(key: Seq<char>, uid: nat, device: Device) -> bool {
    match after_prefix(key, "request:"@) {
        None => false,
        Some(rest) => match cut(rest, ':') {
            None => false,
            Some((id, kind)) => unsigned(id, u32::MAX as nat) == Some(uid) && kind == kind_of(
                device,
            ),
        },
    }
}

/// Reads a metadata key as a question.
pub fn parse_request(key: &str) -> (r: Option<(u32, Device)>)
    ensures
        match r {
            Some((uid, device)) => asks(key@, uid as nat, device),
            None => forall|uid: nat, device: Device| !asks(key@, uid, device),
        },
{
    let rest = match strip_front(&chars_of(key), "request:") {
        Some(rest) => rest,
        None => return None,
    };
    let (id, name) = match split_once(&rest, ':') {
        Some(parts) => parts,
        None => return None,
    };
    let uid = match read_unsigned(&id, u32::MAX as u64) {
        Some(uid) => uid,
        None => return None,
    };
    let name_s = string_of(&name, 0, name.len());
    assert(name_s@ =~= name@);
    match device(name_s.as_str()) {
        Some(d) => Some((uid as u32, d)),
        None => {
            assert forall|u: nat, d: Device| !asks(key@, u, d) by {
                assert(d == Device::Microphone || d == Device::Camera);
            }
            None
        },
    }
}

/// The question written for a user and a device reads back as the same question, and as no
/// other.
pub proof fn request_reads_back(uid: u32, device: Device, other: nat, other_device: Device)
    ensures
        asks(request_key(uid as nat, device), other, other_device) <==> (other == uid
            && other_device == device),
{
    let key = request_key(uid as nat, device);
    let prefix = "request:"@;
    let id = decimal(uid as nat);
    reveal_strlit(":");
    assert(prefix.is_prefix_of(key)) by {
        assert(key.subrange(0, prefix.len() as int) =~= prefix);
    }
    let rest = key.skip(prefix.len() as int);
    assert(rest =~= id + ":"@ + kind_of(device));
    crate::text::lemma_decimal_digits(uid as nat);
    assert(crate::text::first_at(rest, ':', id.len() as int)) by {
        assert forall|j: int| 0 <= j < id.len() implies rest[j] != ':' by {
            assert(rest[j] == id[j]);
            assert(crate::text::is_digit(id[j]));
        }
    }
    crate::text::lemma_first_at(rest, ':', id.len() as int);
    assert(rest.take(id.len() as int) =~= id);
    assert(rest.skip(id.len() as int + 1) =~= kind_of(device));
    crate::text::decimal_reads_back(uid as nat, u32::MAX as nat);
    kinds_differ();
}

/// What is done at PipeWire, or told, in order. `T` is text.
#[derive(Debug)]
pub enum Act<T> {
    /// A property of the metadata; none clears it.
    Put { subject: u32, key: T, value: Option<T> },
    /// Disconnect a client.
    Destroy { client: u32 },
    /// A round trip, after which the mark is in.
    Sync { ticket: u64 },
    /// The mark could not be made.
    Unmarked { ticket: u64 },
    /// The last connection of a user is gone.
    ClientsGone { uid: u32 },
}

impl View for Act<String> {
    type V = Act<Seq<char>>;

    open spec fn view(&self) -> Act<Seq<char>> {
        match *self {
            Act::Put { subject, key, value } => Act::Put {
                subject,
                key: key@,
                value: view_opt(value),
            },
            Act::Destroy { client } => Act::Destroy { client },
            Act::Sync { ticket } => Act::Sync { ticket },
            Act::Unmarked { ticket } => Act::Unmarked { ticket },
            Act::ClientsGone { uid } => Act::ClientsGone { uid },
        }
    }
}

/// An object that PipeWire tells of, by the properties that matter.
#[derive(Debug)]
pub enum Global {
    Client { access: Option<String>, uid: Option<String> },
    Node { class: Option<String> },
    Metadata { name: Option<String> },
    Other,
}

impl Global {
    /// The user of a client that came in through the apps' socket.
    pub open spec fn app_uid(self) -> Option<nat> {
        match self {
            Global::Client { access: Some(access), uid: Some(uid) } => if access@ == ACCESS@ {
                unsigned(uid@, u32::MAX as nat)
            } else {
                None
            },
            _ => None,
        }
    }

    /// A camera.
    pub open spec fn is_camera(self) -> bool {
        match self {
            Global::Node { class: Some(class) } => "Video/Source"@.is_prefix_of(class@),
            _ => false,
        }
    }

    /// WirePlumber's metadata.
    pub open spec fn is_metadata(self) -> bool {
        match self {
            Global::Metadata { name: Some(name) } => name@ == METADATA@,
            _ => false,
        }
    }

    fn client_uid(&self) -> (r: Option<u32>)
        ensures
            match r {
                Some(uid) => self.app_uid() == Some(uid as nat),
                None => self.app_uid() is None,
            },
    {
        match self {
            Global::Client { access: Some(access), uid: Some(uid) } => {
                if !same_text(access.as_str(), ACCESS) {
                    return None;
                }
                match read_unsigned(&chars_of(uid.as_str()), u32::MAX as u64) {
                    Some(n) => Some(n as u32),
                    None => None,
                }
            },
            _ => None,
        }
    }

    fn camera(&self) -> (r: bool)
        ensures
            r == self.is_camera(),
    {
        match self {
            Global::Node { class: Some(class) } => {
                let cs = chars_of(class.as_str());
                match strip_front(&cs, "Video/Source") {
                    Some(_) => true,
                    None => false,
                }
            },
            _ => false,
        }
    }

    fn metadata(&self) -> (r: bool)
        ensures
            r == self.is_metadata(),
    {
        match self {
            Global::Metadata { name: Some(name) } => same_text(name.as_str(), METADATA),
            _ => false,
        }
    }
}

/// To the PipeWire side.
#[derive(Debug)]
pub enum Cmd {
    /// `grant:<uid>` becomes these kinds (none clears it).
    Write { uid: u32, kinds: String },
    /// `request:<uid>:<kind>` is answered.
    Answered { uid: u32, device: Device },
    /// Everything of this uid goes.
    Forget { uid: u32 },
    /// Disconnect a remote.
    Drop { client: u32 },
    /// A remote handed out: what its streams may reach, under its client id.
    Mark { client: u32, what: String, ticket: u64 },
}

/// What is known of PipeWire.
#[derive(Debug)]
pub struct Watch {
    /// WirePlumber's metadata, while it is there, by its id.
    pub metadata: Option<u32>,
    /// The grants to write into it, by uid: all of them again whenever it comes back.
    pub grants: Table<String>,
    /// The apps' clients, id to uid.
    pub clients: Table<u32>,
    pub cameras: Table<()>,
    /// Remotes marked in the metadata: the mark goes with the client, since PipeWire reuses
    /// ids.
    pub marks: Table<()>,
    /// Marks waiting for their round trip, by sequence number.
    pub pending: Vec<(i32, u64)>,
}

/// The writes that put rows of grants into the metadata.
pub open spec fn grant_writes(rows: Seq<(u64, String)>) -> Seq<Act<Seq<char>>> {
    rows.map_values(
        |row: (u64, String)|
            Act::Put { subject: 0u32, key: grant_key(row.0 as nat), value: Some(row.1@) },
    )
}

/// A write into the metadata, if it is there.
pub open spec fn written(present: bool, key: Seq<char>, value: Option<Seq<char>>) -> Seq<
    Act<Seq<char>>,
> {
    if present {
        seq![Act::Put { subject: 0, key, value }]
    } else {
        Seq::empty()
    }
}

/// A user of whom no client is left.
pub open spec fn no_client_of(clients: Map<u64, u32>, uid: u32) -> bool {
    forall|id: u64| #[trigger] clients.contains_key(id) ==> clients[id] != uid
}

fn grant_key_of(uid: u64) -> (r: String)
    ensures
        r@ == grant_key(uid as nat),
{
    let mut key = "grant:".to_owned();
    key.append(number(uid).as_str());
    key
}

fn request_key_of(uid: u32, device: Device) -> (r: String)
    ensures
        r@ == request_key(uid as nat, device),
{
    let mut key = "request:".to_owned();
    key.append(number(uid as u64).as_str());
    key.append(":");
    key.append(kind(device));
    key
}

impl Watch {
    pub open spec fn wf(&self) -> bool {
        self.grants.wf() && self.clients.wf() && self.cameras.wf() && self.marks.wf()
    }

    /// Nothing known yet.
    pub fn new() -> (r: Watch)
        ensures
            r.wf(),
            r.metadata is None,
            r.grants@ == Map::<u64, String>::empty(),
            r.clients@ == Map::<u64, u32>::empty(),
            r.cameras@ == Map::<u64, ()>::empty(),
            r.marks@ == Map::<u64, ()>::empty(),
            r.pending@.len() == 0,
    {
        Watch {
            metadata: None,
            grants: Table::new(),
            clients: Table::new(),
            cameras: Table::new(),
            marks: Table::new(),
            pending: Vec::new(),
        }
    }

    /// An object appeared. The result says whether it is the metadata, to be bound.
    pub fn global(&mut self, id: u32, global: &Global) -> (r: bool)
        requires
            old(self).wf(),
        ensures
            final(self).wf(),
            r == global.is_metadata(),
            final(self).clients@ == match global.app_uid() {
                Some(uid) => old(self).clients@.insert(id as u64, uid as u32),
                None => old(self).clients@,
            },
            final(self).cameras@ == if global.is_camera() {
                old(self).cameras@.insert(id as u64, ())
            } else {
                old(self).cameras@
            },
            final(self).metadata == old(self).metadata,
            final(self).grants == old(self).grants,
            final(self).marks == old(self).marks,
            final(self).pending == old(self).pending,
    {
        if let Some(uid) = global.client_uid() {
            self.clients.insert(id as u64, uid);
        }
        if global.camera() {
            self.cameras.insert(id as u64, ());
        }
        global.metadata()
    }

    /// The metadata is bound: all the grants go into it.
    pub fn bound(&mut self, id: u32) -> (r: Vec<Act<String>>)
        requires
            old(self).wf(),
        ensures
            final(self).wf(),
            final(self).metadata == Some(id),
            final(self).grants == old(self).grants,
            final(self).clients == old(self).clients,
            final(self).cameras == old(self).cameras,
            final(self).marks == old(self).marks,
            final(self).pending == old(self).pending,
            views(r@) == grant_writes(old(self).grants.rows@),
    {
        broadcast use group_views;

        self.metadata = Some(id);
        let ghost rows = self.grants.rows@;
        let mut acts: Vec<Act<String>> = Vec::new();
        let mut i: usize = 0;
        assert(grant_writes(rows.take(0)) =~= Seq::<Act<Seq<char>>>::empty());
        while i < self.grants.rows.len()
            invariant
                i <= self.grants.rows@.len(),
                rows == self.grants.rows@,
                views(acts@) == grant_writes(rows.take(i as int)),
            decreases self.grants.rows@.len() - i,
        {
            let row = &self.grants.rows[i];
            acts.push(
                Act::Put {
                    subject: 0,
                    key: grant_key_of(row.0),
                    value: Some(row.1.clone()),
                },
            );
            assert(rows.take(i + 1) =~= rows.take(i as int).push(rows[i as int]));
            assert(grant_writes(rows.take(i + 1)) =~= grant_writes(rows.take(i as int)).push(
                acts@.last()@,
            ));
            i = i + 1;
        }
        assert(rows.take(i as int) =~= rows);
        acts
    }

    /// A property of the metadata changed: the question it asks, if it does.
    pub fn property(subject: u32, key: Option<&str>, set: bool) -> (r: Option<(u32, Device)>)
        ensures
            match r {
                Some((uid, device)) => subject == 0 && set && key is Some && asks(
                    key->0@,
                    uid as nat,
                    device,
                ),
                None => forall|uid: nat, device: Device|
                    !(subject == 0 && set && key is Some && asks(key->0@, uid, device)),
            },
    {
        if subject == 0 && set {
            match key {
                Some(key) => parse_request(key),
                None => None,
            }
        } else {
            None
        }
    }

    fn any_client_of(&self, uid: u32) -> (r: bool)
        requires
            self.clients.wf(),
        ensures
            r == !no_client_of(self.clients@, uid),
    {
        let ghost rows = self.clients.rows@;
        let mut i: usize = 0;
        while i < self.clients.rows.len()
            invariant
                i <= self.clients.rows@.len(),
                rows == self.clients.rows@,
                self.clients.wf(),
                forall|j: int| 0 <= j < i ==> (#[trigger] rows[j]).1 != uid,
            decreases self.clients.rows@.len() - i,
        {
            if self.clients.rows[i].1 == uid {
                proof {
                    assert(row_of(rows, rows[i as int].0, i as int));
                    lemma_row(rows, rows[i as int].0, i as int);
                }
                return true;
            }
            i = i + 1;
        }
        proof {
            assert forall|id: u64| #[trigger] self.clients@.contains_key(id) implies self.clients@[id]
                != uid by {
                let j = choose|j: int| #[trigger] row_of(rows, id, j);
                assert(has_row(rows, id));
                assert(row_of(rows, id, j));
                lemma_row(rows, id, j);
            }
        }
        false
    }

    /// An object went away: its mark goes with it, the metadata is let go if it is that, and a
    /// user's last connection is told.
    pub fn removed(&mut self, id: u32) -> (r: Vec<Act<String>>)
        requires
            old(self).wf(),
        ensures
            final(self).wf(),
            final(self).cameras@ == old(self).cameras@.remove(id as u64),
            final(self).marks@ == old(self).marks@.remove(id as u64),
            final(self).clients@ == old(self).clients@.remove(id as u64),
            final(self).metadata == if old(self).metadata == Some(id) {
                None
            } else {
                old(self).metadata
            },
            final(self).grants == old(self).grants,
            final(self).pending == old(self).pending,
            views(r@) == (if old(self).marks@.contains_key(id as u64) && old(self).metadata is Some {
                seq![Act::Put { subject: id, key: "drv.remote"@, value: None::<Seq<char>> }]
            } else {
                Seq::<Act<Seq<char>>>::empty()
            }) + (if old(self).clients@.contains_key(id as u64) && no_client_of(
                old(self).clients@.remove(id as u64),
                old(self).clients@[id as u64],
            ) {
                seq![Act::ClientsGone { uid: old(self).clients@[id as u64] }]
            } else {
                Seq::<Act<Seq<char>>>::empty()
            }),
    {
        broadcast use group_views;

        let mut acts: Vec<Act<String>> = Vec::new();
        let _ = self.cameras.remove(id as u64);
        if let Some(_) = self.marks.remove(id as u64) {
            if self.metadata.is_some() {
                acts.push(Act::Put { subject: id, key: "drv.remote".to_owned(), value: None });
            }
        }
        if let Some(m) = self.metadata {
            if m == id {
                self.metadata = None;
            }
        }
        let ghost first = views(acts@);
        assert(first =~= (if old(self).marks@.contains_key(id as u64) && old(self).metadata is Some {
            seq![Act::Put { subject: id, key: "drv.remote"@, value: None::<Seq<char>> }]
        } else {
            Seq::<Act<Seq<char>>>::empty()
        }));
        if let Some(uid) = self.clients.remove(id as u64) {
            if !self.any_client_of(uid) {
                acts.push(Act::ClientsGone { uid });
                assert(views(acts@) =~= first + seq![Act::ClientsGone { uid }]);
            }
        }
        assert(first + Seq::<Act<Seq<char>>>::empty() =~= first);
        acts
    }

    fn set(&self, acts: &mut Vec<Act<String>>, key: String, value: Option<String>)
        ensures
            views(final(acts)@) == views(old(acts)@) + written(
                self.metadata is Some,
                key@,
                view_opt(value),
            ),
    {
        broadcast use group_views;

        let ghost before = views(acts@);
        if self.metadata.is_some() {
            acts.push(Act::Put { subject: 0, key, value });
            assert(views(acts@) =~= before + written(true, key@, view_opt(value)));
        }
        assert(before + Seq::<Act<Seq<char>>>::empty() =~= before);
    }

    /// What a command does.
    pub fn command(&mut self, cmd: Cmd) -> (r: Vec<Act<String>>)
        requires
            old(self).wf(),
        ensures
            final(self).wf(),
            final(self).metadata == old(self).metadata,
            final(self).clients == old(self).clients,
            final(self).cameras == old(self).cameras,
            final(self).pending == old(self).pending,
            match cmd {
                Cmd::Mark { client, what, ticket } => {
                    &&& final(self).grants == old(self).grants
                    &&& if old(self).metadata is Some {
                        &&& final(self).marks@ == old(self).marks@.insert(client as u64, ())
                        &&& views(r@) == seq![
                            Act::Put {
                                subject: client,
                                key: "drv.remote"@,
                                value: Some(what@),
                            },
                            Act::Sync { ticket },
                        ]
                    } else {
                        &&& final(self).marks == old(self).marks
                        &&& views(r@) == seq![Act::<Seq<char>>::Unmarked { ticket }]
                    }
                },
                Cmd::Write { uid, kinds } => {
                    &&& final(self).marks == old(self).marks
                    &&& if kinds@.len() == 0 {
                        &&& final(self).grants@ == old(self).grants@.remove(uid as u64)
                        &&& views(r@) == written(
                            old(self).metadata is Some,
                            grant_key(uid as nat),
                            None,
                        )
                    } else {
                        &&& final(self).grants@ == old(self).grants@.insert(uid as u64, kinds)
                        &&& views(r@) == written(
                            old(self).metadata is Some,
                            grant_key(uid as nat),
                            Some(kinds@),
                        )
                    }
                },
                Cmd::Answered { uid, device } => {
                    &&& final(self).marks == old(self).marks
                    &&& final(self).grants == old(self).grants
                    &&& views(r@) == written(
                        old(self).metadata is Some,
                        request_key(uid as nat, device),
                        None,
                    )
                },
                Cmd::Forget { uid } => {
                    &&& final(self).marks == old(self).marks
                    &&& final(self).grants@ == old(self).grants@.remove(uid as u64)
                    &&& views(r@) == written(
                        old(self).metadata is Some,
                        grant_key(uid as nat),
                        None,
                    ) + written(
                        old(self).metadata is Some,
                        request_key(uid as nat, Device::Microphone),
                        None,
                    ) + written(
                        old(self).metadata is Some,
                        request_key(uid as nat, Device::Camera),
                        None,
                    )
                },
                Cmd::Drop { client } => {
                    &&& final(self).marks == old(self).marks
                    &&& final(self).grants == old(self).grants
                    &&& views(r@) == seq![Act::<Seq<char>>::Destroy { client }]
                },
            },
    {
        broadcast use group_views;

        let mut acts: Vec<Act<String>> = Vec::new();
        assert(Seq::<Act<Seq<char>>>::empty() =~= views(acts@));
        match cmd {
            Cmd::Mark { client, what, ticket } => {
                if self.metadata.is_none() {
                    acts.push(Act::Unmarked { ticket });
                    assert(views(acts@) =~= seq![Act::<Seq<char>>::Unmarked { ticket }]);
                    return acts;
                }
                let ghost set: Act<Seq<char>> = Act::Put {
                    subject: client,
                    key: "drv.remote"@,
                    value: Some(what@),
                };
                acts.push(
                    Act::Put {
                        subject: client,
                        key: "drv.remote".to_owned(),
                        value: Some(what),
                    },
                );
                self.marks.insert(client as u64, ());
                acts.push(Act::Sync { ticket });
                assert(views(acts@) =~= seq![set, Act::Sync { ticket }]);
            },
            Cmd::Write { uid, kinds } => {
                if kinds.as_str().is_empty() {
                    let _ = self.grants.remove(uid as u64);
                    self.set(&mut acts, grant_key_of(uid as u64), None);
                } else {
                    self.set(&mut acts, grant_key_of(uid as u64), Some(kinds.clone()));
                    self.grants.insert(uid as u64, kinds);
                }
                assert(views(acts@) =~= written(
                    self.metadata is Some,
                    grant_key(uid as nat),
                    if kinds@.len() == 0 {
                        None
                    } else {
                        Some(kinds@)
                    },
                ));
            },
            Cmd::Answered { uid, device } => {
                self.set(&mut acts, request_key_of(uid, device), None);
                assert(views(acts@) =~= written(
                    self.metadata is Some,
                    request_key(uid as nat, device),
                    None,
                ));
            },
            Cmd::Forget { uid } => {
                let _ = self.grants.remove(uid as u64);
                self.set(&mut acts, grant_key_of(uid as u64), None);
                assert(views(acts@) =~= written(
                    self.metadata is Some,
                    grant_key(uid as nat),
                    None,
                ));
                self.set(&mut acts, request_key_of(uid, Device::Microphone), None);
                self.set(&mut acts, request_key_of(uid, Device::Camera), None);
            },
            Cmd::Drop { client } => {
                acts.push(Act::Destroy { client });
                assert(views(acts@) =~= seq![Act::<Seq<char>>::Destroy { client }]);
            },
        }
        acts
    }

    /// The cameras that are there.
    pub fn cameras(&self) -> (r: Vec<u32>)
        ensures
            r@.len() == self.cameras.rows@.len(),
            forall|i: int| 0 <= i < r@.len() ==> #[trigger] r@[i] == self.cameras.rows@[i].0 as u32,
    {
        let mut out: Vec<u32> = Vec::new();
        let mut i: usize = 0;
        while i < self.cameras.rows.len()
            invariant
                i <= self.cameras.rows@.len(),
                out@.len() == i,
                forall|j: int|
                    0 <= j < i ==> #[trigger] out@[j] == self.cameras.rows@[j].0 as u32,
            decreases self.cameras.rows@.len() - i,
        {
            #[verifier::truncate]
            let id: u32 = self.cameras.rows[i].0 as u32;
            out.push(id);
            i = i + 1;
        }
        out
    }

    /// The round trip of a mark was started under `seq`.
    pub fn synced(&mut self, seq: i32, ticket: u64)
        ensures
            final(self).pending@ == old(self).pending@.push((seq, ticket)),
            final(self).metadata == old(self).metadata,
            final(self).grants == old(self).grants,
            final(self).clients == old(self).clients,
            final(self).cameras == old(self).cameras,
            final(self).marks == old(self).marks,
    {
        self.pending.push((seq, ticket));
    }

    /// `i` is the first mark that waits for `seq`.
    pub open spec fn waits_at(&self, seq: i32, i: int) -> bool {
        &&& 0 <= i < self.pending@.len()
        &&& self.pending@[i].0 == seq
        &&& forall|j: int| 0 <= j < i ==> (#[trigger] self.pending@[j]).0 != seq
    }

    /// A round trip came back on object `id`: the mark it was for, if it was one.
    pub fn done(&mut self, id: u32, seq: i32) -> (r: Option<u64>)
        ensures
            final(self).metadata == old(self).metadata,
            final(self).grants == old(self).grants,
            final(self).clients == old(self).clients,
            final(self).cameras == old(self).cameras,
            final(self).marks == old(self).marks,
            match r {
                Some(ticket) => id == PW_ID_CORE && exists|i: int| #[trigger]
                    old(self).waits_at(seq, i) && ticket == old(self).pending@[i].1 && final(self).pending@ == old(self).pending@.remove(i),
                None => final(self).pending@ == old(self).pending@ && (id != PW_ID_CORE
                    || forall|i: int|
                    0 <= i < old(self).pending@.len() ==> (#[trigger] old(self).pending@[i]).0
                        != seq),
            },
    {
        if id != PW_ID_CORE {
            return None;
        }
        let mut i: usize = 0;
        while i < self.pending.len()
            invariant
                i <= self.pending@.len(),
                *self == *old(self),
                id == PW_ID_CORE,
                forall|j: int| 0 <= j < i ==> (#[trigger] self.pending@[j]).0 != seq,
            decreases self.pending@.len() - i,
        {
            if self.pending[i].0 == seq {
                assert(old(self).waits_at(seq, i as int));
                let (_, ticket) = self.pending.remove(i);
                return Some(ticket);
            }
            i = i + 1;
        }
        None
    }
}

/// The core object of a connection.
pub const PW_ID_CORE: u32 = 0;

/// Every object that no other permission names.
pub const PW_ID_ANY: u32 = 0xffff_ffff;

/// What a connection may do with an object.
#[derive(Clone, Copy, Debug, PartialEq, Eq, Structural)]
pub struct Permission {
    pub id: u32,
    pub read: bool,
    pub write: bool,
    pub execute: bool,
}

/// What a connection may do with a node: see it and read its formats; change it, where it is
/// its own to `change`.
pub open spec fn node_permission(node: u32, change: bool) -> Permission {
    Permission { id: node, read: true, write: change, execute: true }
}

/// The permissions of a connection handed to an app: the core, the factory for its own stream
/// node, these nodes, nothing else.
pub open spec fn remote_permissions(factory: u32, nodes: Seq<u32>, change: bool) -> Seq<Permission> {
    seq![
        Permission { id: PW_ID_CORE, read: true, write: true, execute: true },
        Permission { id: factory, read: true, write: false, execute: false },
    ] + nodes.map_values(|node: u32| node_permission(node, change)) + seq![
        Permission { id: PW_ID_ANY, read: false, write: false, execute: false },
    ]
}

/// The permissions of a connection handed to an app, once the factory is known; none is known
/// as 0. The bridge's connections may `change` their nodes, drv-cast's may not.
pub fn remote(factory: u32, nodes: &Vec<u32>, change: bool) -> (r: Result<Vec<Permission>, String>)
    ensures
        match r {
            Ok(perms) => factory != 0 && perms@ == remote_permissions(factory, nodes@, change),
            Err(e) => factory == 0 && e@ == "PipeWire has no client-node factory"@,
        },
{
    if factory == 0 {
        return Err("PipeWire has no client-node factory".to_owned());
    }
    let mut perms: Vec<Permission> = Vec::new();
    perms.push(Permission { id: PW_ID_CORE, read: true, write: true, execute: true });
    perms.push(Permission { id: factory, read: true, write: false, execute: false });
    let ghost head = perms@;
    let ghost of = |node: u32| node_permission(node, change);
    let mut i: usize = 0;
    assert(head + nodes@.take(0).map_values(of) =~= head);
    while i < nodes.len()
        invariant
            i <= nodes@.len(),
            of == (|node: u32| node_permission(node, change)),
            perms@ == head + nodes@.take(i as int).map_values(of),
        decreases nodes@.len() - i,
    {
        perms.push(Permission { id: nodes[i], read: true, write: change, execute: true });
        assert(perms@ =~= head + nodes@.take(i + 1).map_values(of));
        i = i + 1;
    }
    assert(nodes@.take(i as int) =~= nodes@);
    perms.push(Permission { id: PW_ID_ANY, read: false, write: false, execute: false });
    assert(perms@ =~= remote_permissions(factory, nodes@, change));
    Ok(perms)
}

/// Whether an object is the factory an app makes its own stream node through.
pub fn is_node_factory(factory: bool, makes: Option<&str>) -> (r: bool)
    ensures
        r == (factory && makes is Some && makes->0@ == "PipeWire:Interface:ClientNode"@),
{
    match makes {
        Some(name) => factory && same_text(name, "PipeWire:Interface:ClientNode"),
        None => false,
    }
}

/// A connection handed to an app sees its nodes, the core and the factory, and what is not
/// named is not seen at all; one that is not to change its nodes changes nothing but the core.
pub proof fn remote_sees_only_its_nodes(factory: u32, nodes: Seq<u32>, change: bool, i: int)
    requires
        0 <= i < remote_permissions(factory, nodes, change).len(),
    ensures
        ({
            let p = remote_permissions(factory, nodes, change)[i];
            &&& p.write ==> p.id == PW_ID_CORE || (change && nodes.contains(p.id))
            &&& p.read ==> p.id == PW_ID_CORE || p.id == factory || nodes.contains(p.id)
            &&& remote_permissions(factory, nodes, change).last() == (Permission {
                id: PW_ID_ANY,
                read: false,
                write: false,
                execute: false,
            })
        }),
{
    let perms = remote_permissions(factory, nodes, change);
    if 2 <= i < perms.len() - 1 {
        assert(perms[i].id == nodes[i - 2]);
    }
}

/// What the metadata has: a user's grants under "grant:" and their number, a question under
/// "request:", their number and the device, by these names.
pub proof fn the_metadata_has_its_keys(uid: nat)
    ensures
        kind_of(Device::Microphone) == "mic"@,
        kind_of(Device::Camera) == "camera"@,
        grant_key(uid) == "grant:"@ + decimal(uid),
        request_key(uid, Device::Microphone) == "request:"@ + decimal(uid) + ":mic"@,
        request_key(uid, Device::Camera) == "request:"@ + decimal(uid) + ":camera"@,
{
    reveal_strlit(":");
    reveal_strlit("mic");
    reveal_strlit("camera");
    reveal_strlit(":mic");
    reveal_strlit(":camera");
    assert(request_key(uid, Device::Microphone) =~= "request:"@ + decimal(uid) + ":mic"@);
    assert(request_key(uid, Device::Camera) =~= "request:"@ + decimal(uid) + ":camera"@);
}

/// A client is an app's where it came in through the apps' socket, and its user is the number
/// it came with; a camera is a node whose class starts with "Video/Source"; and the metadata is
/// the one of our name.
pub proof fn what_pipewire_tells_of(access: String, uid: u32, id: String, name: String, more: Seq<char>)
    requires
        id@ == decimal(uid as nat),
    ensures
        access@ == "drv-app"@ ==> (Global::Client { access: Some(access), uid: Some(id) }).app_uid()
            == Some(uid as nat),
        access@ != "drv-app"@ ==> (Global::Client {
            access: Some(access),
            uid: Some(id),
        }).app_uid() is None,
        (Global::Client { access: None, uid: Some(id) }).app_uid() is None,
        (Global::Client { access: Some(access), uid: None }).app_uid() is None,
        name@ == "Video/Source"@ + more ==> (Global::Node { class: Some(name) }).is_camera(),
        (Global::Node { class: Some(name) }).is_camera() ==> name@.len() >= 12 && name@.take(12)
            == "Video/Source"@,
        !(Global::Node { class: None }).is_camera(),
        (Global::Metadata { name: Some(name) }).is_metadata() <==> name@ == "drv-access"@,
        !(Global::Other).is_camera() && !(Global::Other).is_metadata(),
{
    reveal_strlit("Video/Source");
    crate::text::decimal_reads_back(uid as nat, u32::MAX as nat);
    let s = "Video/Source"@ + more;
    assert(s.subrange(0, 12) =~= "Video/Source"@);
    if (Global::Node { class: Some(name) }).is_camera() {
        assert(name@.take(12) =~= name@.subrange(0, 12));
    }
}

/// Each grant that is known is written under its user's key, and what is written without the
/// metadata is nothing.
pub proof fn grants_are_written(
    rows: Seq<(u64, String)>,
    i: int,
    key: Seq<char>,
    value: Option<Seq<char>>,
)
    ensures
        grant_writes(rows).len() == rows.len(),
        0 <= i < rows.len() ==> grant_writes(rows)[i] == (Act::Put {
            subject: 0u32,
            key: "grant:"@ + decimal(rows[i].0 as nat),
            value: Some(rows[i].1@),
        }),
        written(true, key, value) == seq![Act::Put { subject: 0u32, key, value }],
        written(false, key, value).len() == 0,
{
}

/// A connection handed to an app may use the core, make its own stream and do with each of its
/// nodes what it is let; and of everything else there is nothing.
pub proof fn a_connection_has_its_permissions(factory: u32, nodes: Seq<u32>, change: bool, i: int)
    ensures
        ({
            let perms = remote_permissions(factory, nodes, change);
            &&& perms.len() == nodes.len() + 3
            &&& perms[0] == (Permission { id: 0, read: true, write: true, execute: true })
            &&& perms[1] == (Permission { id: factory, read: true, write: false, execute: false })
            &&& 0 <= i < nodes.len() ==> perms[i + 2] == (Permission {
                id: nodes[i],
                read: true,
                write: change,
                execute: true,
            })
            &&& perms.last() == (Permission {
                id: 0xffff_ffff,
                read: false,
                write: false,
                execute: false,
            })
        }),
{
}

/// A round trip is for the mark that has waited for it longest.
pub proof fn a_round_trip_is_for_the_first(watch: Watch, seq: i32, i: int, k: int)
    ensures
        watch.waits_at(seq, i) <==> 0 <= i < watch.pending@.len() && watch.pending@[i].0 == seq
            && forall|j: int| 0 <= j < i ==> (#[trigger] watch.pending@[j]).0 != seq,
        watch.waits_at(seq, i) && watch.waits_at(seq, k) ==> i == k,
{
    if watch.waits_at(seq, i) && watch.waits_at(seq, k) {
        if i < k {
            assert(watch.pending@[i].0 != seq);
        } else if k < i {
            assert(watch.pending@[k].0 != seq);
        }
    }
}

/// A user of whom a client is left is not gone.
pub proof fn a_user_is_gone_with_the_last_client(clients: Map<u64, u32>, uid: u32, id: u64)
    ensures
        clients.contains_key(id) && clients[id] == uid ==> !no_client_of(clients, uid),
        no_client_of(Map::empty(), uid),
        no_client_of(clients, uid) && clients.contains_key(id) ==> clients[id] != uid,
{
}

/// A key that is no request's asks nothing: one that starts otherwise, and one without a colon
/// behind its number.
pub proof fn other_keys_ask_nothing(key: Seq<char>, rest: Seq<char>, uid: nat, device: Device)
    ensures
        !(key.len() >= 8 && key.take(8) == "request:"@) ==> !asks(key, uid, device),
        !rest.contains(':') ==> !asks("request:"@ + rest, uid, device),
{
    reveal_strlit("request:");
    crate::text::errors_say_what_failed(Seq::empty(), Seq::empty(), key, "request:"@);
    crate::text::errors_say_what_failed(Seq::empty(), Seq::empty(), rest, "request:"@);
}

} // verus!
