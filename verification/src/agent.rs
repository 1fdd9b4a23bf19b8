//! The ssh agent's door: ssh-agent's messages pass through it, for the UIDs that may knock. The
//! authenticator's PIN never passes through an app: the person types it at the shell.
use vstd::prelude::*;
use vstd::string::*;

use crate::shell::ask::{answered, answered_id, Asked, AskedView, Request, Response};
use crate::table::Table;
use crate::text::{
    chars_of, cut, decimal, is_space, number, same_text, space, split_once, string_of, strip_front,
    trim, trimmed, trimmed_end,
};
use crate::views::{group_views, views};

verus! {

pub const SSH_AGENTC_REQUEST_IDENTITIES: u8 = 11;

pub const SSH_AGENT_IDENTITIES_ANSWER: u8 = 12;

pub const SSH_AGENTC_SIGN_REQUEST: u8 = 13;

/// Longer than any agent message has a right to be.
pub const MAX_MESSAGE: usize = 262144;

/// Where ssh-agent's askpass finds the door.
pub const ASKPASS: &'static str = "/tmp/askpass";

/// What the person is told the app wants.
pub const WHAT: &'static str = "use your security key";

/// What the person is asked for to load keys.
pub const LOAD_PROMPT: &'static str = "Enter its PIN to load its ssh keys";

/// The number that four bytes write, the highest first.
pub open spec fn be_value(b: Seq<u8>) -> nat {
    (b[0] * 16777216 + b[1] * 65536 + b[2] * 256 + b[3]) as nat
}

/// A number as four bytes, the highest first; what does not fit in 32 bits is left out.
pub open spec fn be_bytes(n: nat) -> Seq<u8> {
    seq![
        (n / 16777216 % 256) as u8,
        (n / 65536 % 256) as u8,
        (n / 256 % 256) as u8,
        (n % 256) as u8,
    ]
}

/// How long the body is that follows a length: at least one byte, and no more than an agent
/// message may have.
pub fn read_message(header: &Vec<u8>) -> (r: Result<usize, String>)
    requires
        header@.len() == 4,
    ensures
        match r {
            Ok(n) => n == be_value(header@) && 0 < n <= MAX_MESSAGE,
            Err(e) => (be_value(header@) == 0 || be_value(header@) > MAX_MESSAGE) && e@
                == "message of "@ + decimal(be_value(header@)) + " bytes"@,
        },
{
    let n: u64 = header[0] as u64 * 16777216 + header[1] as u64 * 65536 + header[2] as u64 * 256
        + header[3] as u64;
    if n == 0 || n > MAX_MESSAGE as u64 {
        let mut text = "message of ".to_owned();
        text.append(number(n).as_str());
        text.append(" bytes");
        return Err(text);
    }
    Ok(n as usize)
}

/// A message as it goes over the wire: its length, then its body.
pub fn write_message(body: &Vec<u8>) -> (r: Vec<u8>)
    ensures
        r@ == be_bytes(body@.len()) + body@,
{
    let n: u64 = body.len() as u64;
    let mut out: Vec<u8> = Vec::new();
    out.push((n / 16777216 % 256) as u8);
    out.push((n / 65536 % 256) as u8);
    out.push((n / 256 % 256) as u8);
    out.push((n % 256) as u8);
    assert(out@ =~= be_bytes(body@.len()));
    let mut i: usize = 0;
    while i < body.len()
        invariant
            i <= body@.len(),
            out@ == be_bytes(body@.len()) + body@.take(i as int),
        decreases body@.len() - i,
    {
        out.push(body[i]);
        assert(out@ =~= be_bytes(body@.len()) + body@.take(i + 1));
        i = i + 1;
    }
    assert(body@.take(i as int) =~= body@);
    out
}

/// What is written as a message is read as one: the length that is read is the body's.
pub proof fn messages_come_back(body: Seq<u8>)
    requires
        0 < body.len() <= MAX_MESSAGE,
    ensures
        be_value((be_bytes(body.len()) + body).take(4)) == body.len(),
        (be_bytes(body.len()) + body).skip(4) == body,
{
    let n = body.len();
    assert((be_bytes(n) + body).take(4) =~= be_bytes(n));
    assert((be_bytes(n) + body).skip(4) =~= body);
}

/// What a client's message takes: the keys loaded first, where there are none; and while it is
/// a signature, ssh-agent's prompts are for this client.
#[derive(Clone, Copy, Debug, PartialEq, Eq, Structural)]
pub struct Passing {
    pub load: bool,
    pub sign: bool,
}

/// What a client's message takes.
pub fn passing(msg: &Vec<u8>) -> (r: Passing)
    requires
        msg@.len() > 0,
    ensures
        r.load == (msg@[0] == SSH_AGENTC_REQUEST_IDENTITIES || msg@[0]
            == SSH_AGENTC_SIGN_REQUEST),
        r.sign == (msg@[0] == SSH_AGENTC_SIGN_REQUEST),
{
    let kind = msg[0];
    Passing {
        load: kind == SSH_AGENTC_REQUEST_IDENTITIES || kind == SSH_AGENTC_SIGN_REQUEST,
        sign: kind == SSH_AGENTC_SIGN_REQUEST,
    }
}

/// How many keys ssh-agent holds, by its answer.
pub fn count_keys(reply: &Vec<u8>) -> (r: Result<u32, String>)
    ensures
        match r {
            Ok(n) => reply@.len() >= 5 && reply@[0] == SSH_AGENT_IDENTITIES_ANSWER && n
                == be_value(reply@.subrange(1, 5)),
            Err(e) => (reply@.len() < 5 || reply@[0] != SSH_AGENT_IDENTITIES_ANSWER) && e@
                == "no identities answer"@,
        },
{
    if reply.len() < 5 || reply[0] != SSH_AGENT_IDENTITIES_ANSWER {
        return Err("no identities answer".to_owned());
    }
    let n: u64 = reply[1] as u64 * 16777216 + reply[2] as u64 * 65536 + reply[3] as u64 * 256
        + reply[4] as u64;
    assert(n == be_value(reply@.subrange(1, 5)));
    Ok(n as u32)
}

/// Whether the person is asked for the PIN: nothing is loaded, and an authenticator is there.
pub fn load_if_empty(keys: Result<u32, String>, present: bool) -> (r: bool)
    ensures
        r == (keys == Ok::<u32, String>(0u32) && present),
{
    match keys {
        Ok(n) => n == 0 && present,
        Err(_) => false,
    }
}

/// A node of the device directory, and whether we may open it.
#[derive(Debug)]
pub struct Node {
    pub name: String,
    pub ours: bool,
}

/// An authenticator we may open: a hidraw node that is ours.
pub open spec fn is_authenticator(node: Node) -> bool {
    "hidraw"@.is_prefix_of(node.name@) && node.ours
}

/// Whether there is an authenticator we may open.
pub fn authenticator_present(nodes: &Vec<Node>) -> (r: bool)
    ensures
        r == exists|i: int| 0 <= i < nodes@.len() && is_authenticator(#[trigger] nodes@[i]),
{
    let mut i: usize = 0;
    while i < nodes.len()
        invariant
            i <= nodes@.len(),
            forall|j: int| 0 <= j < i ==> !is_authenticator(#[trigger] nodes@[j]),
        decreases nodes@.len() - i,
    {
        let named = match strip_front(&chars_of(nodes[i].name.as_str()), "hidraw") {
            Some(_) => true,
            None => false,
        };
        if named && nodes[i].ours {
            assert(is_authenticator(nodes@[i as int]));
            return true;
        }
        i = i + 1;
    }
    false
}

/// What loading came to: `text` is what ssh-add said, `status` how it ended.
pub fn load_resident(success: bool, text: &str, status: &str) -> (r: Result<(), String>)
    ensures
        match r {
            Ok(_) => success,
            Err(e) => !success && e@ == if trimmed(text@).len() == 0 {
                "ssh-add -K: "@ + status@
            } else {
                trimmed(text@)
            },
        },
{
    if success {
        return Ok(());
    }
    let t = trim(&chars_of(text));
    if t.len() == 0 {
        let mut e = "ssh-add -K: ".to_owned();
        e.append(status);
        return Err(e);
    }
    let s = string_of(&t, 0, t.len());
    assert(s@ =~= t@);
    Err(s)
}

/// Whether a uid may knock, by drv-appd's record of it: the app's name, if it may.
pub fn knock(uid: u32, who: Result<(String, bool), String>) -> (r: Result<String, String>)
    ensures
        match who {
            Ok((name, agent)) => if agent {
                r == Ok::<String, String>(name)
            } else {
                r matches Err(e) && e@ == "refused uid "@ + decimal(uid as nat)
            },
            Err(err) => r matches Err(e) && e@ == "refused uid "@ + decimal(uid as nat) + ": "@
                + err@,
        },
{
    let mut text = "refused uid ".to_owned();
    text.append(number(uid as u64).as_str());
    match who {
        Ok((name, agent)) => if agent {
            Ok(name)
        } else {
            Err(text)
        },
        Err(err) => {
            text.append(": ");
            text.append(err.as_str());
            Err(text)
        },
    }
}

/// Waiting for ssh-agent's socket: it is there, is waited for once more, or never comes.
/// `ended` is how ssh-agent ended, where it did; `late` is whether the time for it is over.
pub fn wait(there: bool, ended: Option<String>, late: bool) -> (r: Result<bool, String>)
    ensures
        match r {
            Ok(ready) => ready == there && (there || (ended is None && !late)),
            Err(e) => !there && match ended {
                Some(status) => e@ == "ssh-agent: "@ + status@,
                None => late && e@ == "ssh-agent: no socket after 5 s"@,
            },
        },
{
    if there {
        return Ok(true);
    }
    if let Some(status) = ended {
        let mut text = "ssh-agent: ".to_owned();
        text.append(status.as_str());
        return Err(text);
    }
    if late {
        return Err("ssh-agent: no socket after 5 s".to_owned());
    }
    Ok(false)
}

/// The apps in a sign request right now: whom ssh-agent's prompts are for.
#[derive(Debug)]
pub struct Signing {
    pub apps: Vec<(String, u32)>,
}

/// `i` is the last place where the app is.
pub open spec fn last_at(apps: Seq<(String, u32)>, app: Seq<char>, uid: u32, i: int) -> bool {
    &&& 0 <= i < apps.len()
    &&& apps[i].0@ == app && apps[i].1 == uid
    &&& forall|j: int|
        i < j < apps.len() ==> !((#[trigger] apps[j]).0@ == app && apps[j].1 == uid)
}

impl Signing {
    pub fn new() -> (r: Signing)
        ensures
            r.apps@.len() == 0,
    {
        Signing { apps: Vec::new() }
    }

    /// A sign request of the app starts.
    pub fn start(&mut self, app: String, uid: u32)
        ensures
            final(self).apps@ == old(self).apps@.push((app, uid)),
    {
        self.apps.push((app, uid));
    }

    /// It ends: the latest of the app's is taken out.
    pub fn end(&mut self, app: &str, uid: u32)
        ensures
            (exists|i: int| #[trigger]
                last_at(old(self).apps@, app@, uid, i) && final(self).apps@
                    == old(self).apps@.remove(i)) || (final(self).apps@ == old(self).apps@
                && forall|j: int|
                0 <= j < old(self).apps@.len() ==> !((#[trigger] old(self).apps@[j]).0@ == app@
                    && old(self).apps@[j].1 == uid)),
    {
        let mut i: usize = self.apps.len();
        while i > 0
            invariant
                i <= self.apps@.len(),
                *self == *old(self),
                forall|j: int|
                    i <= j < self.apps@.len() ==> !((#[trigger] self.apps@[j]).0@ == app@
                        && self.apps@[j].1 == uid),
            decreases i,
        {
            i = i - 1;
            if self.apps[i].1 == uid && same_text(self.apps[i].0.as_str(), app) {
                assert(last_at(old(self).apps@, app@, uid, i as int));
                let _ = self.apps.remove(i);
                return;
            }
        }
    }
}

/// What ssh-agent asks for through its askpass.
#[derive(Debug)]
pub enum Prompt<T> {
    /// Shown until the connection closes.
    Touch { app: T, uid: u32, prompt: T },
    /// The answer goes back as a line.
    Pin { app: T, uid: u32, prompt: T },
}

impl View for Prompt<String> {
    type V = Prompt<Seq<char>>;

    open spec fn view(&self) -> Prompt<Seq<char>> {
        match *self {
            Prompt::Touch { app, uid, prompt } => Prompt::Touch { app: app@, uid, prompt: prompt@ },
            Prompt::Pin { app, uid, prompt } => Prompt::Pin { app: app@, uid, prompt: prompt@ },
        }
    }
}

/// The kind and the prompt of a line: what stands in front of and behind the first tab.
pub open spec fn kind_and_prompt(line: Seq<char>) -> (Seq<char>, Seq<char>) {
    match cut(line, '\t') {
        Some(parts) => parts,
        None => (Seq::empty(), line),
    }
}

/// Whom a prompt is for.
pub open spec fn prompted(apps: Seq<(String, u32)>) -> (Seq<char>, u32) {
    if apps.len() > 0 {
        (apps.last().0@, apps.last().1)
    } else {
        ("an app"@, 0)
    }
}

fn trim_end(s: &Vec<char>) -> (r: Vec<char>)
    ensures
        r@ == trimmed_end(s@),
{
    let mut j: usize = s.len();
    assert(s@.take(j as int) =~= s@);
    while j > 0 && space(s[j - 1])
        invariant
            j <= s@.len(),
            trimmed_end(s@.take(j as int)) == trimmed_end(s@),
        decreases j,
    {
        assert(s@.take(j as int).drop_last() =~= s@.take(j - 1));
        assert(s@.take(j as int).last() == s@[j - 1]);
        j = j - 1;
    }
    if j > 0 {
        assert(s@.take(j as int).last() == s@[j - 1]);
    }
    let r = crate::text::part_of(s, 0, j);
    assert(r@ =~= s@.take(j as int));
    r
}

/// A line of ssh-agent's askpass, `kind` and prompt with a tab between, is for the app whose
/// request is the latest.
pub fn askpass(line: &str, signing: &Signing) -> (r: Prompt<String>)
    ensures
        ({
            let (kind, prompt) = kind_and_prompt(trimmed_end(line@));
            let (app, uid) = prompted(signing.apps@);
            r@ == if kind == "none"@ {
                Prompt::Touch { app, uid, prompt }
            } else {
                Prompt::Pin { app, uid, prompt }
            }
        }),
{
    let cs = trim_end(&chars_of(line));
    let (kind, prompt) = match split_once(&cs, '\t') {
        Some((a, b)) => {
            let k = string_of(&a, 0, a.len());
            let p = string_of(&b, 0, b.len());
            assert(k@ =~= a@ && p@ =~= b@);
            (k, p)
        },
        None => {
            let p = string_of(&cs, 0, cs.len());
            assert(p@ =~= cs@);
            (String::new(), p)
        },
    };
    let n: usize = signing.apps.len();
    let (app, uid): (String, u32) = if n > 0 {
        (signing.apps[n - 1].0.clone(), signing.apps[n - 1].1)
    } else {
        ("an app".to_owned(), 0)
    };
    if same_text(kind.as_str(), "none") {
        Prompt::Touch { app, uid, prompt }
    } else {
        Prompt::Pin { app, uid, prompt }
    }
}

/// A prompt on one line.
pub open spec fn one_line(prompt: Seq<char>) -> Seq<char> {
    prompt.map_values(
        |c: char|
            if c == '\t' || c == '\n' || c == '\r' {
                ' '
            } else {
                c
            },
    )
}

/// The askpass end: ssh-agent's prompt as a line to the door.
pub fn askpass_line(kind: &str, prompt: &str) -> (r: String)
    ensures
        r@ == kind@ + "\t"@ + one_line(prompt@) + "\n"@,
{
    let mut out = kind.to_owned();
    out.append("\t");
    let cs = chars_of(prompt);
    let ghost head = out@;
    let mut i: usize = 0;
    assert(head + one_line(prompt@.take(0)) =~= head);
    while i < cs.len()
        invariant
            i <= cs@.len(),
            cs@ == prompt@,
            out@ == head + one_line(prompt@.take(i as int)),
        decreases cs@.len() - i,
    {
        let c = cs[i];
        let d = if c == '\t' || c == '\n' || c == '\r' { ' ' } else { c };
        out.push(d);
        assert(head + one_line(prompt@.take(i + 1)) =~= (head + one_line(
            prompt@.take(i as int),
        )).push(d));
        i = i + 1;
    }
    assert(prompt@.take(i as int) =~= prompt@);
    out.append("\n");
    out
}

/// What the askpass end prints of the door's answer: a touch has none, and nothing is a
/// refusal.
pub fn askpass_answer(kind: &str, line: String) -> (r: Result<Option<String>, String>)
    ensures
        match r {
            Ok(None) => kind@ == "none"@,
            Ok(Some(l)) => kind@ != "none"@ && line@.len() > 0 && l == line,
            Err(e) => kind@ != "none"@ && line@.len() == 0 && e@ == "refused"@,
        },
{
    if same_text(kind, "none") {
        return Ok(None);
    }
    if line.as_str().is_empty() {
        return Err("refused".to_owned());
    }
    Ok(Some(line))
}

/// What the askpass end says is what the door hears, where neither the kind nor the end of the
/// prompt holds white space, and there is a prompt.
pub proof fn prompts_come_through(kind: Seq<char>, prompt: Seq<char>)
    requires
        !kind.contains('\t'),
        prompt.len() > 0,
        !is_space(prompt.last()),
    ensures
        kind_and_prompt(trimmed_end(kind + "\t"@ + one_line(prompt) + "\n"@)) == (
            kind,
            one_line(prompt),
        ),
{
    reveal_strlit("\t");
    reveal_strlit("\n");
    let body = kind + "\t"@ + one_line(prompt);
    let line = body + "\n"@;
    assert(line.drop_last() =~= body);
    assert(is_space('\n'));
    assert(body.last() == one_line(prompt).last());
    assert(one_line(prompt).last() == prompt.last());
    assert(trimmed_end(line) == trimmed_end(body));
    assert(trimmed_end(body) == body);
    assert(crate::text::first_at(body, '\t', kind.len() as int)) by {
        assert forall|j: int| 0 <= j < kind.len() implies body[j] != '\t' by {
            assert(body[j] == kind[j]);
            assert(kind.contains(kind[j]));
        }
    }
    crate::text::lemma_first_at(body, '\t', kind.len() as int);
    assert(body.take(kind.len() as int) =~= kind);
    assert(body.skip(kind.len() as int + 1) =~= one_line(prompt));
}

/// The line to the shell: questions under numbers of our own, answers to whoever waits.
#[derive(Debug)]
pub struct Shell {
    pub next: u64,
    /// Who waits, by the number of the question.
    pub waiting: Table<u64>,
}

impl Shell {
    pub open spec fn wf(&self) -> bool {
        self.waiting.wf()
    }

    pub fn new() -> (r: Shell)
        ensures
            r.wf(),
            r.next == 1,
            r.waiting@ == Map::<u64, u64>::empty(),
    {
        Shell { next: 1, waiting: Table::new() }
    }

    /// A question: its number, under which `who` waits.
    pub fn ask(&mut self, who: u64) -> (r: u64)
        requires
            old(self).wf(),
        ensures
            final(self).wf(),
            r == old(self).next,
            final(self).next == if r == u64::MAX {
                0
            } else {
                (r + 1) as u64
            },
            final(self).waiting@ == old(self).waiting@.insert(r, who),
    {
        let id = self.next;
        self.next = id.wrapping_add(1);
        self.waiting.insert(id, who);
        id
    }

    /// Nobody waits for this question any more.
    pub fn forget(&mut self, id: u64)
        requires
            old(self).wf(),
        ensures
            final(self).wf(),
            final(self).next == old(self).next,
            final(self).waiting@ == old(self).waiting@.remove(id),
    {
        let _ = self.waiting.remove(id);
    }

    /// Who hears an answer.
    pub fn dispatch(&mut self, resp: &Response<String>) -> (r: Option<u64>)
        requires
            old(self).wf(),
        ensures
            final(self).wf(),
            final(self).next == old(self).next,
            match answered(*resp) {
                None => *final(self) == *old(self) && r is None,
                Some(id) => {
                    &&& final(self).waiting@ == old(self).waiting@.remove(id)
                    &&& r == if old(self).waiting@.contains_key(id) {
                        Some(old(self).waiting@[id])
                    } else {
                        None
                    }
                },
            },
    {
        match answered_id(resp) {
            None => None,
            Some(id) => self.waiting.remove(id),
        }
    }
}

/// The question for a PIN.
pub fn pin_request(id: u64, app: &str, uid: u32, prompt: &str) -> (r: Asked)
    ensures
        r@ == (AskedView::Secret { id, app: app@, uid, what: WHAT@, prompt: prompt@ }),
{
    Request::Secret {
        id,
        app: app.to_owned(),
        uid,
        what: WHAT.to_owned(),
        prompt: prompt.to_owned(),
    }
}

/// The question for a touch.
pub fn touch_request(id: u64, app: &str, uid: u32, prompt: &str) -> (r: Asked)
    ensures
        r@ == (AskedView::Touch { id, app: app@, uid, what: WHAT@, prompt: prompt@ }),
{
    Request::Touch {
        id,
        app: app.to_owned(),
        uid,
        what: WHAT.to_owned(),
        prompt: prompt.to_owned(),
    }
}

/// The PIN the person typed, or that they refused.
pub fn pin(resp: Option<Response<String>>) -> (r: Result<Option<String>, String>)
    ensures
        match resp {
            Some(Response::Secret { secret, .. }) => r == Ok::<Option<String>, String>(
                Some(secret),
            ),
            Some(Response::Cancelled { .. }) => r == Ok::<Option<String>, String>(None),
            Some(_) => r matches Err(e) && e@ == "the shell answered something else"@,
            None => r matches Err(e) && e@ == "the shell is gone"@,
        },
{
    match resp {
        Some(Response::Secret { secret, .. }) => Ok(Some(secret)),
        Some(Response::Cancelled { .. }) => Ok(None),
        Some(_) => Err("the shell answered something else".to_owned()),
        None => Err("the shell is gone".to_owned()),
    }
}

fn pair(k: &str, v: &str) -> (r: (String, String))
    ensures
        r@ == (k@, v@),
{
    (k.to_owned(), v.to_owned())
}

/// The environment of ssh-agent: its prompts run us.
pub fn agent_env(me: &str) -> (r: Vec<(String, String)>)
    ensures
        views(r@) == seq![
            ("SSH_ASKPASS"@, me@),
            ("SSH_ASKPASS_REQUIRE"@, "force"@),
            ("DRV_ASKPASS"@, ASKPASS@),
        ],
{
    broadcast use group_views;

    let r: Vec<(String, String)> = vec![
        pair("SSH_ASKPASS", me),
        pair("SSH_ASKPASS_REQUIRE", "force"),
        pair("DRV_ASKPASS", ASKPASS),
    ];
    assert(views(r@) =~= seq![
        ("SSH_ASKPASS"@, me@),
        ("SSH_ASKPASS_REQUIRE"@, "force"@),
        ("DRV_ASKPASS"@, ASKPASS@),
    ]);
    r
}

/// The environment of ssh-add: the PIN comes through our own askpass.
pub fn add_env(private: &str, me: &str, pin: &str) -> (r: Vec<(String, String)>)
    ensures
        views(r@) == seq![
            ("SSH_AUTH_SOCK"@, private@),
            ("SSH_ASKPASS"@, me@),
            ("SSH_ASKPASS_REQUIRE"@, "force"@),
            ("DRV_PIN"@, pin@),
        ],
{
    broadcast use group_views;

    let r: Vec<(String, String)> = vec![
        pair("SSH_AUTH_SOCK", private),
        pair("SSH_ASKPASS", me),
        pair("SSH_ASKPASS_REQUIRE", "force"),
        pair("DRV_PIN", pin),
    ];
    assert(views(r@) =~= seq![
        ("SSH_AUTH_SOCK"@, private@),
        ("SSH_ASKPASS"@, me@),
        ("SSH_ASKPASS_REQUIRE"@, "force"@),
        ("DRV_PIN"@, pin@),
    ]);
    r
}

/// A message starts with its length in four bytes, the highest first.
pub proof fn a_message_starts_with_its_length(n: nat, b: Seq<u8>)
    requires
        n <= u32::MAX,
        b.len() == 4,
    ensures
        be_bytes(n).len() == 4,
        be_bytes(n)[0] * 16777216 + be_bytes(n)[1] * 65536 + be_bytes(n)[2] * 256 + be_bytes(n)[3]
            == n,
        be_value(b) == b[0] * 16777216 + b[1] * 65536 + b[2] * 256 + b[3],
        be_value(be_bytes(n)) == n,
{
}

/// An authenticator is a node of ours whose name starts with "hidraw".
pub proof fn an_authenticator_is_ours(node: Node, rest: Seq<char>)
    ensures
        !node.ours ==> !is_authenticator(node),
        node.ours && node.name@ == "hidraw"@ + rest ==> is_authenticator(node),
        is_authenticator(node) ==> node.name@.len() >= 6 && node.name@.take(6) == "hidraw"@,
{
    reveal_strlit("hidraw");
    let s = "hidraw"@ + rest;
    assert(s.subrange(0, 6) =~= "hidraw"@);
    if is_authenticator(node) {
        assert(node.name@.take(6) =~= node.name@.subrange(0, 6));
    }
}

/// A prompt is for the app whose request came last, and for "an app" where none did.
pub proof fn prompts_are_for_the_latest(apps: Seq<(String, u32)>, app: String, uid: u32)
    ensures
        prompted(apps.push((app, uid))) == (app@, uid),
        prompted(Seq::empty()) == ("an app"@, 0u32),
{
}

/// A line is its kind up to the first tab and its prompt behind it; without a tab it is all
/// prompt.
pub proof fn a_line_is_kind_and_prompt(kind: Seq<char>, prompt: Seq<char>)
    requires
        !kind.contains('\t'),
    ensures
        kind_and_prompt(kind + "\t"@ + prompt) == (kind, prompt),
        kind_and_prompt(kind) == (Seq::<char>::empty(), kind),
{
    reveal_strlit("\t");
    let line = kind + "\t"@ + prompt;
    let at = kind.len() as int;
    assert(line[at] == '\t');
    assert forall|j: int| 0 <= j < at implies line[j] != '\t' by {
        assert(line[j] == kind[j]);
        assert(kind.contains(kind[j]));
    }
    crate::text::lemma_first_at(line, '\t', at);
    assert(line.take(at) =~= kind);
    assert(line.skip(at + 1) =~= prompt);
}

/// A prompt on one line has spaces for its tabs and ends of lines, and is else as it was.
pub proof fn one_line_is_one_line(prompt: Seq<char>, i: int)
    ensures
        one_line(prompt).len() == prompt.len(),
        0 <= i < prompt.len() && (prompt[i] == '\t' || prompt[i] == '\n' || prompt[i] == '\r')
            ==> one_line(prompt)[i] == ' ',
        0 <= i < prompt.len() && prompt[i] != '\t' && prompt[i] != '\n' && prompt[i] != '\r'
            ==> one_line(prompt)[i] == prompt[i],
{
}

/// A sign request that ends takes out the app's latest and no other.
pub proof fn the_latest_of_an_app_ends(
    apps: Seq<(String, u32)>,
    app: Seq<char>,
    uid: u32,
    i: int,
    k: int,
)
    requires
        last_at(apps, app, uid, i),
        last_at(apps, app, uid, k),
    ensures
        i == k,
        apps[i].0@ == app,
        apps[i].1 == uid,
        forall|j: int|
            0 <= j < apps.len() && (#[trigger] apps[j]).0@ == app && apps[j].1 == uid ==> j <= i,
{
}

} // verus!
