//! The manifest: the apps there are, from the system configuration. Every app has a fixed UID;
//! an app gets nothing but its entry.
use vstd::prelude::*;
use vstd::string::*;

use crate::order::{is_before, text_before, text_order_carries, text_order_is_total};
use crate::policy::{policy_of, AppPolicy, Global, Grant, PolicyView};
use crate::text::{chars_of, decimal, number, quote, quoted, same_text};
use crate::views::{group_views, view_opt, views};

verus! {

/// Variables and their values.
pub type Vars = Seq<(Seq<char>, Seq<char>)>;

/// An environment, by the variables' names in order.
#[derive(Debug)]
pub struct Env {
    rows: Vec<(String, String)>,
}

impl View for Env {
    type V = Vars;

    closed spec fn view(&self) -> Vars {
        views(self.rows@)
    }
}

/// The names stand in order, and none twice.
pub open spec fn in_order(vars: Vars) -> bool {
    forall|i: int, j: int|
        0 <= i < j < vars.len() ==> text_before((#[trigger] vars[i]).0, (#[trigger] vars[j]).0)
}

/// A variable given a value, in its place.
pub open spec fn with_var(vars: Vars, name: Seq<char>, value: Seq<char>) -> Vars
    decreases vars.len(),
{
    if vars.len() == 0 {
        seq![(name, value)]
    } else if vars[0].0 == name {
        vars.update(0, (name, value))
    } else if text_before(name, vars[0].0) {
        seq![(name, value)] + vars
    } else {
        seq![vars[0]] + with_var(vars.skip(1), name, value)
    }
}

proof fn lemma_with_var(vars: Vars, name: Seq<char>, value: Seq<char>, i: int)
    requires
        0 <= i <= vars.len(),
        forall|j: int| 0 <= j < i ==> text_before((#[trigger] vars[j]).0, name),
        i < vars.len() ==> !text_before(vars[i].0, name),
    ensures
        with_var(vars, name, value) == if i < vars.len() && vars[i].0 == name {
            vars.update(i, (name, value))
        } else {
            vars.insert(i, (name, value))
        },
    decreases i,
{
    if i == 0 {
        if vars.len() > 0 {
            text_order_is_total(vars[0].0, name);
        }
        assert(vars.insert(0, (name, value)) =~= seq![(name, value)] + vars);
    } else {
        text_order_is_total(vars[0].0, name);
        assert(text_before(vars[0].0, name));
        let rest = vars.skip(1);
        assert forall|j: int| 0 <= j < i - 1 implies text_before((#[trigger] rest[j]).0, name) by {
            assert(rest[j] == vars[j + 1]);
        }
        lemma_with_var(rest, name, value, i - 1);
        if i < vars.len() && vars[i].0 == name {
            assert(seq![vars[0]] + rest.update(i - 1, (name, value)) =~= vars.update(
                i,
                (name, value),
            ));
        } else {
            assert(seq![vars[0]] + rest.insert(i - 1, (name, value)) =~= vars.insert(
                i,
                (name, value),
            ));
        }
    }
}

proof fn lemma_var_place(vars: Vars, name: Seq<char>) -> (i: int)
    ensures
        0 <= i <= vars.len(),
        forall|j: int| 0 <= j < i ==> text_before((#[trigger] vars[j]).0, name),
        i < vars.len() ==> !text_before(vars[i].0, name),
    decreases vars.len(),
{
    if vars.len() == 0 || !text_before(vars[0].0, name) {
        0
    } else {
        let k = lemma_var_place(vars.skip(1), name);
        assert forall|j: int| 0 <= j < k + 1 implies text_before((#[trigger] vars[j]).0, name) by {
            if j > 0 {
                assert(vars[j] == vars.skip(1)[j - 1]);
            }
        }
        k + 1
    }
}

/// Setting a variable leaves the names in order, each once; the variable has the value, and
/// every other has the one it had.
pub proof fn setting_keeps_order(vars: Vars, name: Seq<char>, value: Seq<char>, other: (Seq<char>, Seq<char>))
    requires
        in_order(vars),
    ensures
        in_order(with_var(vars, name, value)),
        with_var(vars, name, value).contains((name, value)),
        other.0 != name ==> (with_var(vars, name, value).contains(other) <==> vars.contains(other)),
{
    let i = lemma_var_place(vars, name);
    lemma_with_var(vars, name, value, i);
    let new = with_var(vars, name, value);
    assert(new[i] == (name, value));
    if i < vars.len() {
        text_order_is_total(vars[i].0, name);
    }
    assert forall|a: int, b: int| 0 <= a < b < new.len() implies text_before(
        (#[trigger] new[a]).0,
        (#[trigger] new[b]).0,
    ) by {
        if i < vars.len() && vars[i].0 == name {
            assert(text_before(vars[a].0, vars[b].0));
        } else {
            if b < i {
                assert(text_before(vars[a].0, vars[b].0));
            } else if b == i {
                assert(text_before(vars[a].0, name));
            } else if a < i {
                assert(text_before(vars[a].0, vars[b - 1].0));
            } else if a == i {
                if b > i + 1 {
                    assert(text_before(vars[i].0, vars[b - 1].0));
                    text_order_carries(name, vars[i].0, vars[b - 1].0);
                }
            } else {
                assert(text_before(vars[a - 1].0, vars[b - 1].0));
            }
        }
    }
    if other.0 != name {
        if vars.contains(other) {
            let k = choose|k: int| 0 <= k < vars.len() && vars[k] == other;
            if i < vars.len() && vars[i].0 == name {
                assert(new[k] == other);
            } else if k < i {
                assert(new[k] == other);
            } else {
                assert(new[k + 1] == other);
            }
        }
        if new.contains(other) {
            let k = choose|k: int| 0 <= k < new.len() && new[k] == other;
            if i < vars.len() && vars[i].0 == name {
                assert(vars[k] == other);
            } else if k < i {
                assert(vars[k] == other);
            } else {
                assert(vars[k - 1] == other);
            }
        }
    }
}

impl Env {
    #[verifier::type_invariant]
    closed spec fn ordered(self) -> bool {
        in_order(views(self.rows@))
    }

    /// No variable.
    pub fn new() -> (r: Env)
        ensures
            r@ == Vars::empty(),
    {
        broadcast use group_views;

        Env { rows: Vec::new() }
    }

    /// Sets a variable.
    pub fn set(&mut self, name: String, value: String)
        ensures
            final(self)@ == with_var(old(self)@, name@, value@),
            in_order(old(self)@),
            in_order(final(self)@),
    {
        broadcast use group_views;

        proof {
            use_type_invariant(&*self);
            setting_keeps_order(self@, name@, value@, (name@, value@));
        }
        let chars = chars_of(name.as_str());
        let ghost all = self@;
        let mut i: usize = 0;
        while i < self.rows.len() && is_before(&chars_of(self.rows[i].0.as_str()), &chars)
            invariant
                i <= self.rows@.len(),
                chars@ == name@,
                all == views(self.rows@),
                *self == *old(self),
                forall|j: int| 0 <= j < i ==> text_before((#[trigger] all[j]).0, name@),
            ensures
                i <= self.rows@.len(),
                *self == *old(self),
                forall|j: int| 0 <= j < i ==> text_before((#[trigger] all[j]).0, name@),
                i < self.rows@.len() ==> !text_before(all[i as int].0, name@),
            decreases self.rows@.len() - i,
        {
            assert(all[i as int] == self.rows@[i as int]@);
            i = i + 1;
        }
        proof {
            lemma_with_var(all, name@, value@, i as int);
        }
        let mut rows: Vec<(String, String)> = Vec::new();
        add_vars(&mut rows, &self.rows);
        assert(views(rows@) =~= all);
        if i < rows.len() && same_text(rows[i].0.as_str(), name.as_str()) {
            assert(all[i as int] == rows@[i as int]@);
            rows[i] = (name, value);
        } else {
            rows.insert(i, (name, value));
            assert(views(rows@) =~= all.insert(i as int, (name@, value@)));
        }
        *self = Env { rows };
    }

    /// The variables, by name, added to others.
    pub fn add_to(&self, env: &mut Vec<(String, String)>)
        ensures
            views(final(env)@) == views(old(env)@) + self@,
            in_order(self@),
    {
        proof {
            use_type_invariant(self);
        }
        add_vars(env, &self.rows);
    }
}

/// Adds variables to others.
pub fn add_vars(env: &mut Vec<(String, String)>, more: &Vec<(String, String)>)
    ensures
        views(final(env)@) == views(old(env)@) + views(more@),
{
    broadcast use group_views;

    let ghost start = views(env@);
    let ghost all = views(more@);
    let mut i: usize = 0;
    assert(start + all.take(0) =~= start);
    while i < more.len()
        invariant
            i <= more@.len(),
            all == views(more@),
            views(env@) == start + all.take(i as int),
        decreases more@.len() - i,
    {
        broadcast use group_views;

        env.push((more[i].0.clone(), more[i].1.clone()));
        assert(env@.last()@ == all[i as int]);
        assert(start + all.take(i + 1) =~= (start + all.take(i as int)).push(all[i as int]));
        i = i + 1;
    }
    assert(all.take(i as int) =~= all);
}

/// The manifest file.
#[derive(Debug)]
pub struct Config {
    /// The compositor's apps socket: every launched app's `WAYLAND_DISPLAY`. Autostart waits
    /// for it.
    pub wayland_socket: String,
    /// Environment every app gets.
    pub env: Env,
    pub apps: Vec<AppConfig>,
}

#[derive(Debug)]
pub struct AppConfig {
    pub name: String,
    /// Fixed, from the system configuration.
    pub uid: u32,
    /// Program and its arguments. Absent means a service that is identified but not launched.
    pub command: Option<Vec<String>>,
    /// Supplementary groups.
    pub groups: Vec<String>,
    pub gpu: bool,
    /// Keep the host network; off means an empty network namespace.
    pub network: bool,
    pub globals: Vec<Global>,
    pub grants: Vec<Grant>,
    pub icon: Option<String>,
    /// Extra environment for this app only.
    pub env: Env,
    /// Extra `/run` entries this app may see.
    pub expose: Vec<String>,
    /// Started by the daemon once the compositor's socket is there, in manifest order.
    pub autostart: bool,
}

impl AppConfig {
    /// What the app is allowed.
    pub open spec fn allowed(self) -> PolicyView {
        PolicyView {
            name: self.name@,
            gpu: self.gpu,
            globals: self.globals@,
            grants: self.grants@,
            icon: view_opt(self.icon),
        }
    }

    /// What the app is allowed.
    pub fn policy(&self) -> (r: AppPolicy)
        ensures
            r@ == self.allowed(),
    {
        policy_of(&self.name, self.gpu, &self.globals, &self.grants, &self.icon)
    }
}

/// Why there is no manifest.
#[derive(Debug)]
pub enum Error {
    /// The file could not be read.
    Io(String, String),
    /// The file is not a manifest.
    Parse(String, String),
    Config(String),
}

impl Error {
    pub open spec fn text(self) -> Seq<char> {
        match self {
            Error::Io(path, err) => path@ + ": "@ + err@,
            Error::Parse(path, err) => path@ + ": "@ + err@,
            Error::Config(msg) => msg@,
        }
    }

    /// The error in words.
    pub fn message(&self) -> (r: String)
        ensures
            r@ == self.text(),
    {
        match self {
            Error::Io(path, err) | Error::Parse(path, err) => {
                let mut text = path.clone();
                text.append(": ");
                text.append(err.as_str());
                text
            },
            Error::Config(msg) => msg.clone(),
        }
    }
}

/// An app before `i` has the name of the app at `i`.
pub open spec fn named_before(apps: Seq<AppConfig>, i: int) -> bool {
    exists|j: int| 0 <= j < i && (#[trigger] apps[j]).name@ == apps[i].name@
}

/// An app before `i` has the UID of the app at `i`.
pub open spec fn uid_before(apps: Seq<AppConfig>, i: int) -> bool {
    exists|j: int| 0 <= j < i && (#[trigger] apps[j]).uid == apps[i].uid
}

/// What is wrong with the app at `i`: a name or a UID that is another's, an empty command, or
/// an autostart with none.
pub open spec fn app_fault(apps: Seq<AppConfig>, i: int) -> Option<Seq<char>> {
    let app = apps[i];
    if named_before(apps, i) {
        Some("app "@ + quoted(app.name@) + " listed twice"@)
    } else if uid_before(apps, i) {
        Some("uid "@ + decimal(app.uid as nat) + " used by more than one app"@)
    } else if app.command is Some && app.command->0@.len() == 0 {
        Some("app "@ + quoted(app.name@) + " has an empty exec"@)
    } else if app.autostart && app.command is None {
        Some("app "@ + quoted(app.name@) + " is autostart but has no exec"@)
    } else {
        None
    }
}

/// What is wrong with the first `n` apps, the first fault of them.
pub open spec fn first_fault(apps: Seq<AppConfig>, n: int) -> Option<Seq<char>>
    decreases n,
{
    if n <= 0 {
        None
    } else {
        match first_fault(apps, n - 1) {
            Some(fault) => Some(fault),
            None => app_fault(apps, n - 1),
        }
    }
}

fn about_app(name: &String, rest: &str) -> (r: String)
    ensures
        r@ == "app "@ + quoted(name@) + rest@,
{
    let mut text = "app ".to_owned();
    text.append(quote(name.as_str()).as_str());
    text.append(rest);
    text
}

fn check_app(apps: &Vec<AppConfig>, i: usize) -> (r: Result<(), String>)
    requires
        i < apps@.len(),
    ensures
        match r {
            Ok(_) => app_fault(apps@, i as int) is None,
            Err(e) => app_fault(apps@, i as int) == Some(e@),
        },
{
    let app = &apps[i];
    let mut named = false;
    let mut used = false;
    let mut j: usize = 0;
    while j < i
        invariant
            j <= i < apps@.len(),
            *app == apps@[i as int],
            named == (exists|k: int| 0 <= k < j && (#[trigger] apps@[k]).name@ == app.name@),
            used == (exists|k: int| 0 <= k < j && (#[trigger] apps@[k]).uid == app.uid),
        decreases i - j,
    {
        if same_text(apps[j].name.as_str(), app.name.as_str()) {
            assert(apps@[j as int].name@ == app.name@);
            named = true;
        }
        if apps[j].uid == app.uid {
            assert(apps@[j as int].uid == app.uid);
            used = true;
        }
        j = j + 1;
    }
    if named {
        return Err(about_app(&app.name, " listed twice"));
    }
    if used {
        let mut text = "uid ".to_owned();
        text.append(number(app.uid as u64).as_str());
        text.append(" used by more than one app");
        return Err(text);
    }
    match &app.command {
        Some(argv) => {
            if argv.len() == 0 {
                return Err(about_app(&app.name, " has an empty exec"));
            }
        },
        None => {
            if app.autostart {
                return Err(about_app(&app.name, " is autostart but has no exec"));
            }
        },
    }
    Ok(())
}

/// A UID is one identity, a name is one app, and an autostart entry must be launchable.
pub fn check_config(config: &Config) -> (r: Result<(), String>)
    ensures
        match r {
            Ok(_) => first_fault(config.apps@, config.apps@.len() as int) is None,
            Err(e) => first_fault(config.apps@, config.apps@.len() as int) == Some(e@),
        },
{
    let mut i: usize = 0;
    while i < config.apps.len()
        invariant
            i <= config.apps@.len(),
            first_fault(config.apps@, i as int) is None,
        decreases config.apps@.len() - i,
    {
        match check_app(&config.apps, i) {
            Ok(_) => {},
            Err(e) => {
                proof {
                    lemma_fault_stays(config.apps@, i + 1, config.apps@.len() as int);
                }
                return Err(e);
            },
        }
        i = i + 1;
    }
    Ok(())
}

proof fn lemma_fault_stays(apps: Seq<AppConfig>, n: int, m: int)
    requires
        0 <= n <= m,
        first_fault(apps, n) is Some,
    ensures
        first_fault(apps, m) == first_fault(apps, n),
    decreases m,
{
    if n < m {
        lemma_fault_stays(apps, n, m - 1);
    }
}

proof fn lemma_no_fault(apps: Seq<AppConfig>, n: int, i: int)
    requires
        first_fault(apps, n) is None,
        0 <= i < n,
    ensures
        app_fault(apps, i) is None,
    decreases n,
{
    if i < n - 1 {
        lemma_no_fault(apps, n - 1, i);
    }
}

/// In a manifest that is accepted a UID is one identity, a name is one app, and whatever
/// starts by itself has a command.
pub proof fn accepted_manifests_are_unambiguous(apps: Seq<AppConfig>, i: int, j: int)
    requires
        first_fault(apps, apps.len() as int) is None,
        0 <= i < apps.len(),
        0 <= j < apps.len(),
    ensures
        i != j ==> apps[i].uid != apps[j].uid && apps[i].name@ != apps[j].name@,
        apps[i].command is Some ==> apps[i].command->0@.len() > 0,
        apps[i].autostart ==> apps[i].command is Some,
{
    lemma_no_fault(apps, apps.len() as int, i);
    lemma_no_fault(apps, apps.len() as int, j);
    if i < j {
        if apps[i].uid == apps[j].uid {
            assert(uid_before(apps, j));
        }
        if apps[i].name@ == apps[j].name@ {
            assert(named_before(apps, j));
        }
    } else if j < i {
        if apps[i].uid == apps[j].uid {
            assert(uid_before(apps, i));
        }
        if apps[i].name@ == apps[j].name@ {
            assert(named_before(apps, i));
        }
    }
}

/// Where the first app of a name is; past the end where there is none.
pub open spec fn app_at(apps: Seq<AppConfig>, name: Seq<char>) -> int
    decreases apps.len(),
{
    if apps.len() == 0 || apps[0].name@ == name {
        0
    } else {
        1 + app_at(apps.skip(1), name)
    }
}

/// Where the first app of a UID is; past the end where there is none.
pub open spec fn uid_at(apps: Seq<AppConfig>, uid: u32) -> int
    decreases apps.len(),
{
    if apps.len() == 0 || apps[0].uid == uid {
        0
    } else {
        1 + uid_at(apps.skip(1), uid)
    }
}

/// What a UID is allowed: nothing where the manifest does not name it.
pub open spec fn policy_for(apps: Seq<AppConfig>, uid: u32) -> PolicyView {
    let i = uid_at(apps, uid);
    if i < apps.len() {
        apps[i].allowed()
    } else {
        PolicyView::unknown()
    }
}

/// The apps that have a command, by name.
pub open spec fn launchable(apps: Seq<AppConfig>) -> Seq<Seq<char>>
    decreases apps.len(),
{
    if apps.len() == 0 {
        Seq::empty()
    } else {
        let before = launchable(apps.drop_last());
        if apps.last().command is Some {
            before.push(apps.last().name@)
        } else {
            before
        }
    }
}

impl Config {
    /// The app of a name.
    pub fn app(&self, name: &str) -> (r: Option<&AppConfig>)
        ensures
            match r {
                Some(app) => app_at(self.apps@, name@) < self.apps@.len() && *app
                    == self.apps@[app_at(self.apps@, name@)],
                None => app_at(self.apps@, name@) == self.apps@.len(),
            },
    {
        let ghost all = self.apps@;
        let mut i: usize = 0;
        assert(all.skip(0) =~= all);
        while i < self.apps.len()
            invariant
                i <= all.len(),
                all == self.apps@,
                app_at(all, name@) == i + app_at(all.skip(i as int), name@),
            decreases all.len() - i,
        {
            assert(all.skip(i as int)[0] == all[i as int]);
            assert(all.skip(i as int).skip(1) =~= all.skip(i + 1));
            if same_text(self.apps[i].name.as_str(), name) {
                return Some(&self.apps[i]);
            }
            i = i + 1;
        }
        None
    }

    /// The app of a UID.
    pub fn by_uid(&self, uid: u32) -> (r: Option<&AppConfig>)
        ensures
            match r {
                Some(app) => uid_at(self.apps@, uid) < self.apps@.len() && *app
                    == self.apps@[uid_at(self.apps@, uid)],
                None => uid_at(self.apps@, uid) == self.apps@.len(),
            },
    {
        let ghost all = self.apps@;
        let mut i: usize = 0;
        assert(all.skip(0) =~= all);
        while i < self.apps.len()
            invariant
                i <= all.len(),
                all == self.apps@,
                uid_at(all, uid) == i + uid_at(all.skip(i as int), uid),
            decreases all.len() - i,
        {
            assert(all.skip(i as int)[0] == all[i as int]);
            assert(all.skip(i as int).skip(1) =~= all.skip(i + 1));
            if self.apps[i].uid == uid {
                return Some(&self.apps[i]);
            }
            i = i + 1;
        }
        None
    }

    /// What a UID is allowed.
    pub fn policy(&self, uid: u32) -> (r: AppPolicy)
        ensures
            r@ == policy_for(self.apps@, uid),
    {
        match self.by_uid(uid) {
            Some(app) => app.policy(),
            None => AppPolicy::unknown(),
        }
    }

    /// The apps that have a command, by name.
    pub fn launchable(&self) -> (r: Vec<String>)
        ensures
            views(r@) == launchable(self.apps@),
    {
        broadcast use group_views;

        let mut names: Vec<String> = Vec::new();
        let mut i: usize = 0;
        assert(self.apps@.take(0) =~= Seq::empty());
        while i < self.apps.len()
            invariant
                i <= self.apps@.len(),
                views(names@) == launchable(self.apps@.take(i as int)),
            decreases self.apps@.len() - i,
        {
            broadcast use group_views;

            assert(self.apps@.take(i + 1).drop_last() =~= self.apps@.take(i as int));
            if self.apps[i].command.is_some() {
                names.push(self.apps[i].name.clone());
            }
            i = i + 1;
        }
        assert(self.apps@.take(i as int) =~= self.apps@);
        names
    }

    /// The child's environment: ours first, then the manifest's and the app's own, each by
    /// name, and the compositor's apps socket.
    pub fn env_for(&self, base: &Vec<(String, String)>, app: &AppConfig) -> (r: Vec<(String, String)>)
        ensures
            views(r@) == env_of(*self, views(base@), *app),
            in_order(self.env@),
            in_order(app.env@),
    {
        broadcast use group_views;

        let mut env: Vec<(String, String)> = Vec::new();
        add_vars(&mut env, base);
        self.env.add_to(&mut env);
        app.env.add_to(&mut env);
        env.push(("WAYLAND_DISPLAY".to_owned(), self.wayland_socket.clone()));
        assert(views(env@) =~= env_of(*self, views(base@), *app));
        env
    }
}

/// The child's environment.
pub open spec fn env_of(config: Config, base: Vars, app: AppConfig) -> Vars {
    (base + config.env@ + app.env@).push(("WAYLAND_DISPLAY"@, config.wayland_socket@))
}

/// The error for an app that has no command.
pub open spec fn is_service(name: Seq<char>) -> Seq<char> {
    quoted(name) + " is a service, not a launchable app"@
}

pub fn service_text(name: &String) -> (r: String)
    ensures
        r@ == is_service(name@),
{
    let mut text = quote(name.as_str());
    text.append(" is a service, not a launchable app");
    text
}

/// The error for an app that the manifest does not name; `file` is the manifest's.
pub open spec fn is_unknown(name: Seq<char>, file: Seq<char>) -> Seq<char> {
    "unknown app "@ + quoted(name) + "; add it to "@ + file
}

pub fn unknown_text(name: &str, file: &str) -> (r: String)
    ensures
        r@ == is_unknown(name@, file@),
{
    let mut text = "unknown app ".to_owned();
    text.append(quote(name).as_str());
    text.append("; add it to ");
    text.append(file);
    text
}

} // verus!
