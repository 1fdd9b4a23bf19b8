//! What an app's entry in a manifest comes to: what it is allowed, how it is launched, and which
//! manifests are refused.
use vstd::prelude::*;

use crate::appd::{self, autostarts, is_listening, Appd, Launcher};
use crate::identity::Identity;
use crate::manifest::{
    app_at, app_fault, env_of, first_fault, launchable, policy_for, uid_at, AppConfig, Config,
    Error, Vars,
};
use crate::policy::daemon::{Handler, Said};
use crate::policy::forker::Launch;
use crate::policy::spawn::Request;
use crate::policy::{Grant, PolicyView};
use crate::text::{decimal, lines, quoted, words};
use crate::views::{lemma_kept_contains, view_opt, views};

verus! {

/// An app is found by its name, and by its uid: the first that has it.
pub proof fn entries_are_found(apps: Seq<AppConfig>, name: Seq<char>, uid: u32, i: int)
    requires
        0 <= i <= apps.len(),
    ensures
        (i < apps.len() ==> apps[i].name@ == name) && (forall|j: int|
            0 <= j < i ==> (#[trigger] apps[j]).name@ != name) ==> app_at(apps, name) == i,
        (i < apps.len() ==> apps[i].uid == uid) && (forall|j: int|
            0 <= j < i ==> (#[trigger] apps[j]).uid != uid) ==> uid_at(apps, uid) == i,
    decreases apps.len(),
{
    if i > 0 {
        let rest = apps.skip(1);
        entries_are_found(rest, name, uid, i - 1);
        if i < apps.len() {
            assert(rest[i - 1] == apps[i]);
        }
        if forall|j: int| 0 <= j < i ==> (#[trigger] apps[j]).name@ != name {
            assert(apps[0].name@ != name);
            assert forall|j: int| 0 <= j < i - 1 implies (#[trigger] rest[j]).name@ != name by {
                assert(rest[j] == apps[j + 1]);
            }
        }
        if forall|j: int| 0 <= j < i ==> (#[trigger] apps[j]).uid != uid {
            assert(apps[0].uid != uid);
            assert forall|j: int| 0 <= j < i - 1 implies (#[trigger] rest[j]).uid != uid by {
                assert(rest[j] == apps[j + 1]);
            }
        }
    }
}

/// A uid is allowed what its entry says and no more; one that has none is unknown, and allowed
/// nothing.
pub proof fn a_uid_is_allowed_what_its_entry_says(apps: Seq<AppConfig>, uid: u32, i: int)
    ensures
        0 <= i < apps.len() && apps[i].uid == uid && (forall|j: int|
            0 <= j < i ==> (#[trigger] apps[j]).uid != uid) ==> policy_for(apps, uid)
            == (PolicyView {
            name: apps[i].name@,
            gpu: apps[i].gpu,
            globals: apps[i].globals@,
            grants: apps[i].grants@,
            icon: view_opt(apps[i].icon),
        }),
        (forall|j: int| 0 <= j < apps.len() ==> (#[trigger] apps[j]).uid != uid) ==> {
            let p = policy_for(apps, uid);
            &&& p.name == "unknown"@
            &&& !p.gpu
            &&& p.globals.len() == 0
            &&& p.grants.len() == 0
            &&& p.icon is None
        },
{
    if 0 <= i < apps.len() && apps[i].uid == uid && forall|j: int|
        0 <= j < i ==> (#[trigger] apps[j]).uid != uid {
        entries_are_found(apps, Seq::empty(), uid, i);
    }
    if forall|j: int| 0 <= j < apps.len() ==> (#[trigger] apps[j]).uid != uid {
        entries_are_found(apps, Seq::empty(), uid, apps.len() as int);
    }
}

/// The names that can be launched are those of the entries with a command, and those that start
/// by themselves are the entries that say so.
pub proof fn what_has_a_command_can_be_launched(apps: Seq<AppConfig>, name: Seq<char>, a: AppConfig)
    ensures
        launchable(apps).contains(name) <==> exists|i: int|
            0 <= i < apps.len() && (#[trigger] apps[i]).name@ == name && apps[i].command is Some,
        autostarts(apps).contains(a) <==> apps.contains(a) && a.autostart,
    decreases apps.len(),
{
    lemma_kept_contains(apps, |a: AppConfig| a.autostart, a);
    if apps.len() > 0 {
        let front = apps.drop_last();
        let last = apps.last();
        what_has_a_command_can_be_launched(front, name, a);
        let before = launchable(front);
        vstd::seq_lib::lemma_seq_contains_after_push(before, last.name@, name);
        if launchable(apps).contains(name) {
            if before.contains(name) {
                let i = choose|i: int|
                    0 <= i < front.len() && (#[trigger] front[i]).name@ == name
                        && front[i].command is Some;
                assert(front[i] == apps[i]);
            } else {
                assert(apps[apps.len() - 1].name@ == name);
            }
        }
        if exists|i: int|
            0 <= i < apps.len() && (#[trigger] apps[i]).name@ == name && apps[i].command is Some {
            let i = choose|i: int|
                0 <= i < apps.len() && (#[trigger] apps[i]).name@ == name && apps[i].command
                    is Some;
            if i < front.len() {
                assert(front[i] == apps[i]);
            }
        }
    }
}

/// What is wrong with an entry: first a name that came before, then a uid that did, then an
/// empty command, then a start by itself without one.
pub proof fn what_is_wrong_with_an_entry(apps: Seq<AppConfig>, i: int)
    requires
        0 <= i < apps.len(),
    ensures
        ({
            let app = apps[i];
            let name = exists|j: int| 0 <= j < i && (#[trigger] apps[j]).name@ == app.name@;
            let uid = exists|j: int| 0 <= j < i && (#[trigger] apps[j]).uid == app.uid;
            let empty = app.command is Some && app.command->0@.len() == 0;
            let idle = app.autostart && app.command is None;
            &&& name ==> app_fault(apps, i) == Some("app "@ + quoted(app.name@) + " listed twice"@)
            &&& !name && uid ==> app_fault(apps, i) == Some(
                "uid "@ + decimal(app.uid as nat) + " used by more than one app"@,
            )
            &&& !name && !uid && empty ==> app_fault(apps, i) == Some(
                "app "@ + quoted(app.name@) + " has an empty exec"@,
            )
            &&& !name && !uid && idle ==> app_fault(apps, i) == Some(
                "app "@ + quoted(app.name@) + " is autostart but has no exec"@,
            )
            &&& !name && !uid && !empty && !idle ==> app_fault(apps, i) is None
        }),
{
}

/// A manifest is refused for the first entry that something is wrong with, and for nothing
/// else.
pub proof fn the_first_fault_is_told(apps: Seq<AppConfig>, n: int, i: int)
    requires
        0 <= i < n <= apps.len(),
    ensures
        app_fault(apps, i) is Some && (forall|j: int|
            0 <= j < i ==> #[trigger] app_fault(apps, j) is None) ==> first_fault(apps, n)
            == app_fault(apps, i),
        (forall|j: int| 0 <= j < n ==> #[trigger] app_fault(apps, j) is None) ==> first_fault(
            apps,
            n,
        ) is None,
    decreases n,
{
    if n > 1 {
        the_first_fault_is_told(apps, n - 1, if i < n - 1 { i } else { 0 });
        if i == n - 1 && forall|j: int| 0 <= j < i ==> #[trigger] app_fault(apps, j) is None {
            assert(first_fault(apps, n - 1) is None);
        }
    } else {
        assert(first_fault(apps, 0) is None);
    }
}

/// An app's environment: what every app gets first, then the manifest's, then its own, then the
/// compositor's socket, each in its order and nothing left out.
pub proof fn the_environment_is_put_together(config: Config, base: Vars, app: AppConfig, i: int)
    ensures
        ({
            let env = env_of(config, base, app);
            let n = base.len() as int;
            let m = n + config.env@.len();
            &&& env.len() == m + app.env@.len() + 1
            &&& 0 <= i < n ==> env[i] == base[i]
            &&& 0 <= i < config.env@.len() ==> env[n + i] == config.env@[i]
            &&& 0 <= i < app.env@.len() ==> env[m + i] == app.env@[i]
            &&& env.last() == ("WAYLAND_DISPLAY"@, config.wayland_socket@)
        }),
{
}

/// Launching by name on a launch channel: the app of that name is started as its entry says,
/// with no folder of the person's and no nix daemon; a service is not started; and a name that
/// is in no entry is unknown. Nothing else is refused.
pub proof fn a_launch_is_the_entrys(
    launcher: Launcher,
    peer: u32,
    name: Seq<char>,
    i: int,
    launch: Launch,
    e: String,
)
    ensures
        ({
            let config = launcher.appd.config;
            let apps = config.apps@;
            let app = apps[i];
            let found = 0 <= i < apps.len() && app.name@ == name && forall|j: int|
                0 <= j < i ==> (#[trigger] apps[j]).name@ != name;
            let unknown = forall|j: int|
                0 <= j < apps.len() ==> (#[trigger] apps[j]).name@ != name;
            &&& found && launcher.may_launch(peer, name, Ok(launch)) ==> {
                &&& app.command is Some
                &&& launch.uid == app.uid
                &&& views(launch.argv@) == views(app.command->0@)
                &&& views(launch.groups@) == views(app.groups@)
                &&& views(launch.env@) == env_of(config, views(launcher.appd.base_env@), app)
                &&& launch.network == app.network
                &&& launch.gpu == app.gpu
                &&& !launch.nix
                &&& views(launch.expose@) == views(app.expose@)
                &&& launch.folders@.len() == 0
            }
            &&& found && launcher.may_launch(peer, name, Err(e)) ==> app.command is None && e@
                == quoted(name) + " is a service, not a launchable app"@
            &&& unknown ==> !launcher.may_launch(peer, name, Ok(launch))
            &&& unknown && launcher.may_launch(peer, name, Err(e)) ==> e@ == "unknown app "@
                + quoted(name) + "; add it to "@ + "appd.toml"@
            &&& launcher.listed(peer) == Said::Yes(launchable(apps))
        }),
{
    let apps = launcher.appd.config.apps@;
    if 0 <= i < apps.len() {
        entries_are_found(apps, name, 0, i);
    }
    entries_are_found(apps, name, 0, apps.len() as int);
}

/// The same where the spawner starts apps: as the entry says, with no line to the PIN's
/// service.
pub proof fn a_fork_is_the_entrys(
    identity: Identity,
    peer: u32,
    name: Seq<char>,
    i: int,
    request: Request,
    e: String,
)
    ensures
        ({
            let config = identity.config;
            let apps = config.apps@;
            let app = apps[i];
            let found = 0 <= i < apps.len() && app.name@ == name && forall|j: int|
                0 <= j < i ==> (#[trigger] apps[j]).name@ != name;
            let unknown = forall|j: int|
                0 <= j < apps.len() ==> (#[trigger] apps[j]).name@ != name;
            &&& found && identity.may_launch(peer, name, Ok(request)) ==> {
                &&& app.command is Some
                &&& request.uid == app.uid
                &&& views(request.argv@) == views(app.command->0@)
                &&& views(request.groups@) == views(app.groups@)
                &&& views(request.env@) == env_of(config, views(identity.base_env@), app)
                &&& request.network == app.network
                &&& views(request.expose@) == views(app.expose@)
                &&& !request.auth
            }
            &&& found && identity.may_launch(peer, name, Err(e)) ==> app.command is None && e@
                == quoted(name) + " is a service, not a launchable app"@
            &&& unknown ==> !identity.may_launch(peer, name, Ok(request))
            &&& unknown && identity.may_launch(peer, name, Err(e)) ==> e@ == "unknown app "@
                + quoted(name) + "; add it to "@ + "identity.toml"@
            &&& identity.listed(peer) == Said::Yes(launchable(apps))
        }),
{
    let apps = identity.config.apps@;
    if 0 <= i < apps.len() {
        entries_are_found(apps, name, 0, i);
    }
    entries_are_found(apps, name, 0, apps.len() as int);
}

/// What is refused on the wrong socket, and how: launches and the list of apps on the public
/// one, lookups on a launch channel; and lookups of others without the grant.
pub proof fn the_wrong_socket_says_so(
    appd: Appd,
    launcher: Launcher,
    identity: Identity,
    peer: u32,
    uid: u32,
    name: Seq<char>,
    launch: Launch,
    e: String,
)
    ensures
        !appd.may_launch(peer, name, Ok(launch)),
        appd.may_launch(peer, name, Err(e)) ==> e@ == "uid "@ + decimal(peer as nat)
            + " asked to launch "@ + quoted(name)
            + " on the public socket; only a launch channel may"@,
        appd.listed(peer) == Said::<Seq<Seq<char>>>::No(
            "uid "@ + decimal(peer as nat)
                + " asked for the apps on the public socket; only a launch channel may"@,
        ),
        launcher.looked_up(peer, uid) == Said::<PolicyView>::No(
            "lookup of uid "@ + decimal(uid as nat)
                + " on a launch channel; the public socket answers those"@,
        ),
        ({
            let may = peer == uid || policy_for(appd.config.apps@, peer).grants.contains(
                Grant::Lookup,
            );
            appd.looked_up(peer, uid) == if may {
                Said::Yes(policy_for(appd.config.apps@, uid))
            } else {
                Said::No("uid "@ + decimal(peer as nat) + " may not look up other uids"@)
            }
        }),
        ({
            let may = peer == uid || policy_for(identity.config.apps@, peer).grants.contains(
                Grant::Lookup,
            );
            identity.looked_up(peer, uid) == if may {
                Said::Yes(policy_for(identity.config.apps@, uid))
            } else {
                Said::No("uid "@ + decimal(peer as nat) + " may not look up other uids"@)
            }
        }),
{
}

/// A socket listens where a line of the kernel's table behind the heading has the flags of one
/// that does in its fourth word and the path in its eighth.
pub proof fn the_table_tells_who_listens(table: Seq<char>, path: Seq<char>)
    ensures
        is_listening(table, path) <==> exists|i: int|
            1 <= i < lines(table).len() && words(#[trigger] lines(table)[i]).len() >= 8 && words(
                lines(table)[i],
            )[3] == "00010000"@ && words(lines(table)[i])[7] == path,
{
    let l = lines(table);
    if exists|i: int|
        1 <= i < l.len() && words(#[trigger] l[i]).len() >= 8 && words(l[i])[3] == "00010000"@
            && words(l[i])[7] == path {
        let i = choose|i: int|
            1 <= i < l.len() && words(#[trigger] l[i]).len() >= 8 && words(l[i])[3] == "00010000"@
                && words(l[i])[7] == path;
        assert(appd::listens(l[i], path));
    }
    if is_listening(table, path) {
        let i = choose|i: int| 1 <= i < l.len() && appd::listens(#[trigger] l[i], path);
        assert(words(l[i]).len() >= 8);
    }
}

/// Why there is no manifest, in words.
pub proof fn manifests_say_what_is_wrong(path: String, err: String)
    ensures
        Error::Io(path, err).text() == path@ + ": "@ + err@,
        Error::Parse(path, err).text() == path@ + ": "@ + err@,
        Error::Config(err).text() == err@,
{
}

} // verus!
