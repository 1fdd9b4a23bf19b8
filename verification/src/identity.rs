//! The identity daemon: knows the apps, answers policy lookups, and turns the name of an app
//! into a request to the root spawner.
use vstd::prelude::*;
use vstd::string::*;

pub use crate::manifest::{check_config, AppConfig, Config, Error};

use crate::appd::autostarts;
use crate::manifest::{
    app_at, env_of, in_order, is_service, is_unknown, launchable, policy_for, service_text, unknown_text,
    Vars,
};
use crate::policy::daemon::{no_lookup, no_lookup_text, Handler, Said};
use crate::policy::spawn::Request;
use crate::policy::{AppPolicy, Grant, PolicyView};
use crate::text::copied;
use crate::views::{kept, lemma_kept_step, views};

verus! {

#[derive(Debug)]
pub struct Identity {
    pub config: Config,
    /// Environment every launched app gets first.
    pub base_env: Vec<(String, String)>,
}

/// The request is the app's: its UID and command, its environment, and nothing that its entry
/// does not name.
pub open spec fn forks(request: Request, config: Config, base: Vars, app: AppConfig) -> bool {
    &&& app.command is Some
    &&& request.uid == app.uid
    &&& views(request.groups@) == views(app.groups@)
    &&& views(request.argv@) == views(app.command->0@)
    &&& views(request.env@) == env_of(config, base, app)
    &&& in_order(config.env@) && in_order(app.env@)
    &&& request.network == app.network
    &&& views(request.expose@) == views(app.expose@)
    &&& !request.auth
}

/// What starting an app comes to.
pub open spec fn starts(config: Config, base: Vars, app: AppConfig, r: Result<Request, String>) -> bool {
    match r {
        Ok(request) => forks(request, config, base, app),
        Err(e) => app.command is None && e@ == is_service(app.name@),
    }
}

/// What launching by name comes to.
pub open spec fn starts_named(
    config: Config,
    base: Vars,
    name: Seq<char>,
    r: Result<Request, String>,
) -> bool {
    let i = app_at(config.apps@, name);
    if i < config.apps@.len() {
        starts(config, base, config.apps@[i], r)
    } else {
        r matches Err(e) && e@ == is_unknown(name, "identity.toml"@)
    }
}

impl Identity {
    pub fn new(config: Config, base_env: Vec<(String, String)>) -> (r: Identity)
        ensures
            r == (Identity { config, base_env }),
    {
        Identity { config, base_env }
    }

    /// What the spawner is asked to start an app.
    pub fn start(&self, app: &AppConfig) -> (r: Result<Request, String>)
        ensures
            starts(self.config, views(self.base_env@), *app, r),
    {
        match &app.command {
            None => Err(service_text(&app.name)),
            Some(argv) => Ok(
                Request {
                    uid: app.uid,
                    groups: copied(&app.groups),
                    argv: copied(argv),
                    env: self.config.env_for(&self.base_env, app),
                    network: app.network,
                    expose: copied(&app.expose),
                    auth: false,
                },
            ),
        }
    }

    /// What the spawner is asked for every app that starts by itself, in manifest order.
    pub fn autostart(&self) -> (r: Vec<(String, Result<Request, String>)>)
        ensures
            r@.len() == autostarts(self.config.apps@).len(),
            forall|i: int|
                0 <= i < r@.len() ==> (#[trigger] r@[i]).0@ == autostarts(self.config.apps@)[i].name@
                    && starts(
                    self.config,
                    views(self.base_env@),
                    autostarts(self.config.apps@)[i],
                    r@[i].1,
                ),
    {
        let ghost apps = self.config.apps@;
        let ghost keep = |a: AppConfig| a.autostart;
        let mut list: Vec<(String, Result<Request, String>)> = Vec::new();
        let mut i: usize = 0;
        assert(apps.take(0) =~= Seq::empty());
        while i < self.config.apps.len()
            invariant
                i <= apps.len(),
                apps == self.config.apps@,
                keep == (|a: AppConfig| a.autostart),
                list@.len() == kept(apps.take(i as int), keep).len(),
                forall|k: int|
                    0 <= k < list@.len() ==> (#[trigger] list@[k]).0@ == kept(
                        apps.take(i as int),
                        keep,
                    )[k].name@ && starts(
                        self.config,
                        views(self.base_env@),
                        kept(apps.take(i as int), keep)[k],
                        list@[k].1,
                    ),
            decreases apps.len() - i,
        {
            proof {
                lemma_kept_step(apps, keep, i as int);
            }
            let app = &self.config.apps[i];
            if app.autostart {
                list.push((app.name.clone(), self.start(app)));
            }
            i = i + 1;
        }
        assert(apps.take(i as int) =~= apps);
        list
    }
}

impl Handler for Identity {
    type Start = Request;

    open spec fn looked_up(&self, peer: u32, uid: u32) -> Said<PolicyView> {
        if peer != uid && !policy_for(self.config.apps@, peer).grants.contains(Grant::Lookup) {
            Said::No(no_lookup(peer))
        } else {
            Said::Yes(policy_for(self.config.apps@, uid))
        }
    }

    fn lookup(&self, peer: u32, uid: u32) -> (r: Result<AppPolicy, String>) {
        if peer != uid && !self.config.policy(peer).has(Grant::Lookup) {
            return Err(no_lookup_text(peer));
        }
        Ok(self.config.policy(uid))
    }

    open spec fn may_launch(&self, peer: u32, app: Seq<char>, r: Result<Request, String>) -> bool {
        starts_named(self.config, views(self.base_env@), app, r)
    }

    fn launch(&self, peer: u32, app: &str) -> (r: Result<Request, String>) {
        match self.config.app(app) {
            Some(a) => self.start(a),
            None => Err(unknown_text(app, "identity.toml")),
        }
    }

    open spec fn listed(&self, peer: u32) -> Said<Seq<Seq<char>>> {
        Said::Yes(launchable(self.config.apps@))
    }

    fn apps(&self, peer: u32) -> (r: Result<Vec<String>, String>) {
        Ok(self.config.launchable())
    }
}

/// A peer may always ask about itself; about others it needs the grant.
pub proof fn peers_may_ask_about_themselves(identity: Identity, peer: u32, uid: u32)
    ensures
        identity.looked_up(peer, peer) == Said::Yes(policy_for(identity.config.apps@, peer)),
        identity.looked_up(peer, uid) is Yes <==> peer == uid || policy_for(
            identity.config.apps@,
            peer,
        ).grants.contains(Grant::Lookup),
{
}

} // verus!
