//! drv-appd: knows the apps, answers policy lookups, and turns the name of an app into what the
//! forker is asked. Launching is not on the public socket: it is served on launch channels.
use vstd::prelude::*;
use vstd::string::*;

pub use crate::manifest::{check_config, AppConfig, Config, Error};

use crate::manifest::{
    app_at, env_of, in_order, is_service, is_unknown, launchable, policy_for, service_text, unknown_text,
    Vars,
};
use crate::policy::daemon::{no_lookup, no_lookup_text, Handler, Said};
use crate::policy::forker::Launch;
use crate::policy::{AppPolicy, Grant, PolicyView};
use crate::text::{chars_of, copied, decimal, lines, lines_of, number, quote, quoted, same, words, words_of};
use crate::views::{group_views, kept, lemma_kept_step, views};

verus! {

#[derive(Debug)]
pub struct Appd {
    pub config: Config,
    /// Environment every launched app gets first.
    pub base_env: Vec<(String, String)>,
}

/// The launch is the app's: its UID and command, its environment, and nothing that its entry
/// does not name.
pub open spec fn launches(launch: Launch, config: Config, base: Vars, app: AppConfig) -> bool {
    &&& app.command is Some
    &&& launch.uid == app.uid
    &&& views(launch.groups@) == views(app.groups@)
    &&& views(launch.argv@) == views(app.command->0@)
    &&& views(launch.env@) == env_of(config, base, app)
    &&& in_order(config.env@) && in_order(app.env@)
    &&& launch.network == app.network
    &&& launch.gpu == app.gpu
    &&& !launch.nix
    &&& views(launch.expose@) == views(app.expose@)
    &&& launch.folders@.len() == 0
}

/// What starting an app comes to.
pub open spec fn starts(config: Config, base: Vars, app: AppConfig, r: Result<Launch, String>) -> bool {
    match r {
        Ok(launch) => launches(launch, config, base, app),
        Err(e) => app.command is None && e@ == is_service(app.name@),
    }
}

/// What launching by name comes to.
pub open spec fn launches_named(
    config: Config,
    base: Vars,
    name: Seq<char>,
    r: Result<Launch, String>,
) -> bool {
    let i = app_at(config.apps@, name);
    if i < config.apps@.len() {
        starts(config, base, config.apps@[i], r)
    } else {
        r matches Err(e) && e@ == is_unknown(name, "appd.toml"@)
    }
}

/// The error for a launch on the public socket.
pub open spec fn no_launch(peer: u32, name: Seq<char>) -> Seq<char> {
    "uid "@ + decimal(peer as nat) + " asked to launch "@ + quoted(name)
        + " on the public socket; only a launch channel may"@
}

/// The error for the list of apps on the public socket.
pub open spec fn no_list(peer: u32) -> Seq<char> {
    "uid "@ + decimal(peer as nat) + " asked for the apps on the public socket; only a launch channel may"@
}

/// The error for a lookup on a launch channel.
pub open spec fn no_lookup_here(uid: u32) -> Seq<char> {
    "lookup of uid "@ + decimal(uid as nat)
        + " on a launch channel; the public socket answers those"@
}

impl Appd {
    pub fn new(config: Config, base_env: Vec<(String, String)>) -> (r: Appd)
        ensures
            r == (Appd { config, base_env }),
    {
        Appd { config, base_env }
    }

    /// What the forker is asked to start an app.
    pub fn start(&self, app: &AppConfig) -> (r: Result<Launch, String>)
        ensures
            starts(self.config, views(self.base_env@), *app, r),
    {
        match &app.command {
            None => Err(service_text(&app.name)),
            Some(argv) => Ok(
                Launch {
                    uid: app.uid,
                    groups: copied(&app.groups),
                    argv: copied(argv),
                    env: self.config.env_for(&self.base_env, app),
                    network: app.network,
                    gpu: app.gpu,
                    nix: false,
                    expose: copied(&app.expose),
                    folders: Vec::new(),
                },
            ),
        }
    }

    /// What the forker is asked for every app that starts by itself, in manifest order.
    pub fn autostart(&self) -> (r: Vec<(String, Result<Launch, String>)>)
        ensures
            r@.len() == autostarts(self.config.apps@).len(),
            forall|i: int|
                0 <= i < r@.len() ==> (#[trigger] r@[i]).0@ == autostarts(self.config.apps@)[i].name@
                    && starts(
                    self.config,
                    views(self.base_env@),
                    autostarts(self.config.apps@)[i],
                    r@[i].1,
                ),
    {
        let ghost apps = self.config.apps@;
        let ghost keep = |a: AppConfig| a.autostart;
        let mut list: Vec<(String, Result<Launch, String>)> = Vec::new();
        let mut i: usize = 0;
        assert(apps.take(0) =~= Seq::empty());
        while i < self.config.apps.len()
            invariant
                i <= apps.len(),
                apps == self.config.apps@,
                keep == (|a: AppConfig| a.autostart),
                list@.len() == kept(apps.take(i as int), keep).len(),
                forall|k: int|
                    0 <= k < list@.len() ==> (#[trigger] list@[k]).0@ == kept(
                        apps.take(i as int),
                        keep,
                    )[k].name@ && starts(
                        self.config,
                        views(self.base_env@),
                        kept(apps.take(i as int), keep)[k],
                        list@[k].1,
                    ),
            decreases apps.len() - i,
        {
            proof {
                lemma_kept_step(apps, keep, i as int);
            }
            let app = &self.config.apps[i];
            if app.autostart {
                list.push((app.name.clone(), self.start(app)));
            }
            i = i + 1;
        }
        assert(apps.take(i as int) =~= apps);
        list
    }
}

/// The apps that start by themselves, in manifest order.
pub open spec fn autostarts(apps: Seq<AppConfig>) -> Seq<AppConfig> {
    kept(apps, |a: AppConfig| a.autostart)
}

/// What follows while the compositor's socket is waited for.
#[derive(Debug, Clone, Copy, PartialEq, Eq, Structural)]
pub enum Wait {
    Start,
    GiveUp,
    /// Look again in a tenth of a second.
    Again,
}

/// What follows while the compositor's socket is waited for: it starts once it is there, however
/// late.
pub fn wait(there: bool, now: u128, deadline: u128) -> (r: Wait)
    ensures
        r == if there {
            Wait::Start
        } else if now > deadline {
            Wait::GiveUp
        } else {
            Wait::Again
        },
{
    if there {
        Wait::Start
    } else if now > deadline {
        Wait::GiveUp
    } else {
        Wait::Again
    }
}

/// The line of the kernel's table is of a socket that listens at this path: its flags are the
/// fourth word, its path the eighth.
pub open spec fn listens(line: Seq<char>, path: Seq<char>) -> bool {
    words(line).len() > 7 && words(line)[3] == "00010000"@ && words(line)[7] == path
}

/// Some process listens at the path, by the kernel's table of unix sockets. Its first line is a
/// heading.
pub open spec fn is_listening(table: Seq<char>, path: Seq<char>) -> bool {
    exists|i: int| 1 <= i < lines(table).len() && listens(#[trigger] lines(table)[i], path)
}

/// Whether some process listens at the path, by the kernel's table of unix sockets.
pub fn socket_listening(table: &str, path: &str) -> (r: bool)
    ensures
        r == is_listening(table@, path@),
{
    broadcast use group_views;

    let all = lines_of(&chars_of(table));
    let flags = chars_of("00010000");
    let wanted = chars_of(path);
    let ghost text = lines(table@);
    let mut i: usize = 1;
    while i < all.len()
        invariant
            i >= 1,
            text == lines(table@),
            views(all@) == text,
            flags@ == "00010000"@,
            wanted@ == path@,
            forall|j: int| 1 <= j < i && j < text.len() ==> !listens(#[trigger] text[j], path@),
        decreases all@.len() - i,
    {
        assert(text[i as int] == all@[i as int]@);
        let fields = words_of(&all[i]);
        assert(views(fields@).len() == fields@.len());
        if fields.len() > 7 {
            assert(words(text[i as int])[3] == fields@[3]@);
            assert(words(text[i as int])[7] == fields@[7]@);
            if same(&fields[3], &flags) && same(&fields[7], &wanted) {
                assert(listens(lines(table@)[i as int], path@));
                return true;
            }
        }
        i = i + 1;
    }
    false
}

/// The public socket: a peer is told of itself, and of others with the grant. It is reachable
/// by every app, so it launches nothing.
impl Handler for Appd {
    type Start = Launch;

    open spec fn looked_up(&self, peer: u32, uid: u32) -> Said<PolicyView> {
        if peer != uid && !policy_for(self.config.apps@, peer).grants.contains(Grant::Lookup) {
            Said::No(no_lookup(peer))
        } else {
            Said::Yes(policy_for(self.config.apps@, uid))
        }
    }

    fn lookup(&self, peer: u32, uid: u32) -> (r: Result<AppPolicy, String>) {
        if peer != uid && !self.config.policy(peer).has(Grant::Lookup) {
            return Err(no_lookup_text(peer));
        }
        Ok(self.config.policy(uid))
    }

    open spec fn may_launch(&self, peer: u32, app: Seq<char>, r: Result<Launch, String>) -> bool {
        r matches Err(e) && e@ == no_launch(peer, app)
    }

    fn launch(&self, peer: u32, app: &str) -> (r: Result<Launch, String>) {
        let mut text = "uid ".to_owned();
        text.append(number(peer as u64).as_str());
        text.append(" asked to launch ");
        text.append(quote(app).as_str());
        text.append(" on the public socket; only a launch channel may");
        Err(text)
    }

    open spec fn listed(&self, peer: u32) -> Said<Seq<Seq<char>>> {
        Said::No(no_list(peer))
    }

    fn apps(&self, peer: u32) -> (r: Result<Vec<String>, String>) {
        let mut text = "uid ".to_owned();
        text.append(number(peer as u64).as_str());
        text.append(" asked for the apps on the public socket; only a launch channel may");
        Err(text)
    }
}

/// One launch channel: launches, nothing else.
#[derive(Debug)]
pub struct Launcher<'a> {
    pub appd: &'a Appd,
}

impl<'a> Handler for Launcher<'a> {
    type Start = Launch;

    open spec fn looked_up(&self, peer: u32, uid: u32) -> Said<PolicyView> {
        Said::No(no_lookup_here(uid))
    }

    fn lookup(&self, peer: u32, uid: u32) -> (r: Result<AppPolicy, String>) {
        let mut text = "lookup of uid ".to_owned();
        text.append(number(uid as u64).as_str());
        text.append(" on a launch channel; the public socket answers those");
        Err(text)
    }

    open spec fn may_launch(&self, peer: u32, app: Seq<char>, r: Result<Launch, String>) -> bool {
        launches_named(self.appd.config, views(self.appd.base_env@), app, r)
    }

    fn launch(&self, peer: u32, app: &str) -> (r: Result<Launch, String>) {
        match self.appd.config.app(app) {
            Some(a) => self.appd.start(a),
            None => Err(unknown_text(app, "appd.toml")),
        }
    }

    open spec fn listed(&self, peer: u32) -> Said<Seq<Seq<char>>> {
        Said::Yes(launchable(self.appd.config.apps@))
    }

    fn apps(&self, peer: u32) -> (r: Result<Vec<String>, String>) {
        Ok(self.appd.config.launchable())
    }
}

/// Nothing is launched on the public socket, and nothing looked up on a launch channel.
pub proof fn each_socket_has_its_business(
    appd: Appd,
    launcher: Launcher,
    peer: u32,
    uid: u32,
    app: Seq<char>,
    r: Result<Launch, String>,
)
    requires
        appd.may_launch(peer, app, r),
    ensures
        r is Err,
        launcher.looked_up(peer, uid) is No,
{
}

/// A peer may always ask about itself; about others it needs the grant.
pub proof fn peers_may_ask_about_themselves(appd: Appd, peer: u32, uid: u32)
    ensures
        appd.looked_up(peer, peer) == Said::Yes(policy_for(appd.config.apps@, peer)),
        appd.looked_up(peer, uid) is Yes <==> peer == uid || policy_for(
            appd.config.apps@,
            peer,
        ).grants.contains(Grant::Lookup),
{
}

/// An app is launched as its entry says and under its own UID, whoever asks and whatever they
/// know of it.
pub proof fn apps_get_their_entry_only(
    launcher: Launcher,
    peer: u32,
    other: u32,
    app: Seq<char>,
    launch: Launch,
)
    requires
        launcher.may_launch(peer, app, Ok(launch)),
    ensures
        launcher.may_launch(other, app, Ok(launch)),
        app_at(launcher.appd.config.apps@, app) < launcher.appd.config.apps@.len(),
        ({
            let entry = launcher.appd.config.apps@[app_at(launcher.appd.config.apps@, app)];
            &&& launch.uid == entry.uid
            &&& entry.command is Some
            &&& views(launch.argv@) == views(entry.command->0@)
        }),
{
}

} // verus!
