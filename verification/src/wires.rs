//! Which messages answer a request, and under which number.
use vstd::prelude::*;

use crate::bridge::wire::{Cursor, Source, ToServer, ToShim};
use crate::cast::wire::FromCast;
use crate::files::wire::FromFiles;
use crate::shell::ask::{answered, Response};
use crate::shell::notify::FromShell;

verus! {

/// Every answer on the line to an app's shim carries the number of the request that it answers;
/// a hello, and the word that a session ended, answer none.
pub proof fn answers_to_the_shim_are_numbered(
    req: u64,
    paths: Vec<String>,
    node_id: u32,
    source: Source<String>,
    width: i32,
    height: i32,
    text: String,
    flag: bool,
)
    ensures
        (ToShim::Files { req, paths }).answers() == Some(req),
        (ToShim::Cast { req, node_id, source, width, height, token: text }).answers() == Some(req),
        (ToShim::Remote { req }).answers() == Some(req),
        (ToShim::Granted { req }).answers() == Some(req),
        (ToShim::Present { req, present: flag }).answers() == Some(req),
        (ToShim::Done { req }).answers() == Some(req),
        (ToShim::Notified { req, id: node_id }).answers() == Some(req),
        (ToShim::Cancelled { req }).answers() == Some(req),
        (ToShim::Failed { req, reason: text }).answers() == Some(req),
        (ToShim::Hello { version: node_id }).answers() is None,
        (ToShim::CastClosed { session: req }).answers() is None,
{
}

/// Every request of the shim is answered under its own number but for a hello, a closing and a
/// withdrawal, which are not answered.
pub proof fn requests_of_the_shim_are_numbered(
    req: u64,
    session: u64,
    title: Seq<char>,
    save: Option<Seq<char>>,
    cursor: Cursor,
    screens: bool,
    windows: bool,
    n: u32,
)
    ensures
        (ToServer::Choose { req, title, save }).answered_under() == Some(req),
        (ToServer::Cast { req, session, cursor, screens, windows, again: save }).answered_under()
            == Some(req),
        (ToServer::<Seq<char>>::CastRemote { req, session }).answered_under() == Some(req),
        (ToServer::<Seq<char>>::Camera { req }).answered_under() == Some(req),
        (ToServer::<Seq<char>>::CameraRemote { req }).answered_under() == Some(req),
        (ToServer::<Seq<char>>::CameraPresent { req }).answered_under() == Some(req),
        (ToServer::Open { req, uri: title }).answered_under() == Some(req),
        (ToServer::Notify { req, replaces: n, summary: title, body: title }).answered_under()
            == Some(req),
        (ToServer::<Seq<char>>::Hello { version: n }).answered_under() is None,
        (ToServer::<Seq<char>>::CastClose { session }).answered_under() is None,
        (ToServer::<Seq<char>>::Cancel { req }).answered_under() is None,
{
}

/// The same of what the services say to apps, and of what the person answers.
pub proof fn answers_of_the_services_are_numbered(
    req: u64,
    node_id: u32,
    source: Source<Seq<char>>,
    width: i32,
    height: i32,
    text: Seq<char>,
    words: String,
    paths: Vec<String>,
    flag: bool,
)
    ensures
        (FromCast::Cast { req, node_id, source, width, height, token: text }).answers() == Some(
            req,
        ),
        (FromCast::<Seq<char>>::Remote { req }).answers() == Some(req),
        (FromCast::<Seq<char>>::Granted { req }).answers() == Some(req),
        (FromCast::<Seq<char>>::Present { req, present: flag }).answers() == Some(req),
        (FromCast::<Seq<char>>::Cancelled { req }).answers() == Some(req),
        (FromCast::Failed { req, reason: text }).answers() == Some(req),
        (FromCast::<Seq<char>>::Hello { version: node_id }).answers() is None,
        (FromCast::<Seq<char>>::CastClosed { session: req }).answers() is None,
        (FromFiles::Chosen { req, paths }).answers() == Some(req),
        (FromFiles::Cancelled { req }).answers() == Some(req),
        (FromFiles::Failed { req, reason: words }).answers() == Some(req),
        (FromFiles::Hello { version: node_id }).answers() is None,
        (FromShell::Notified { req, id: node_id }).answers() == Some(req),
        (FromShell::Failed { req, reason: words }).answers() == Some(req),
        (FromShell::Hello { version: node_id }).answers() is None,
        answered(Response::<Seq<char>>::Yes { id: req }) == Some(req),
        answered(Response::Secret { id: req, secret: text }) == Some(req),
        answered(Response::Picked { id: req, key: text }) == Some(req),
        answered(Response::<Seq<char>>::Cancelled { id: req }) == Some(req),
        answered(Response::<Seq<char>>::Hello { version: node_id }) is None,
{
}

/// Where services are found and which version each line speaks.
pub proof fn where_services_are_found()
    ensures
        crate::seat::DEFAULT_SOCKET@ == "/run/drv-seat/seat.sock"@,
        crate::cast::wire::SOCKET@ == "/run/drv-cast/cast.sock"@,
        crate::shell::notify::SOCKET@ == "/run/drv-shell/notify.sock"@,
        crate::files::wire::SOCKET@ == "/run/drv/files.sock"@,
        crate::policy::door::APPD_SOCKET@ == "/run/drv/appd.sock"@,
        crate::cli::APPD@ == "/run/drv/appd.sock"@,
        crate::cli::IDENTITY@ == "/run/drv/identity.sock"@,
        crate::seat::SOCKET_ENV@ == "DRV_SEAT_SOCKET"@,
        crate::bridge::bus::SOCKET_ENV@ == "DRV_BRIDGE_SOCKET"@,
        crate::policy::wire::WIRE_ENV@ == "DRV_WIRE_FD"@,
        crate::policy::env::IDENTITY_SOCKET@ == "DRV_IDENTITY_SOCKET"@,
        crate::policy::env::APPD_SOCKET@ == "DRV_APPD_SOCKET"@,
        crate::policy::env::APPS_SOCKET@ == "DRV_APPS_SOCKET"@,
        crate::cli::LAUNCH_FD@ == "DRV_LAUNCH_FD"@,
        crate::os::seccomp::DISABLE_ENV@ == "DRV_SECCOMP"@,
        crate::policy::wire::WIRE_FD == 3,
        crate::policy::spawn::CHANNEL_FD == 4,
        crate::seat::VERSION == 1,
        crate::cast::wire::VERSION == 1,
        crate::cast::compositor::VERSION == 5,
        crate::policy::rpc::VERSION == 7,
        crate::shell::ask::VERSION == 1,
        crate::shell::notify::VERSION == 1,
        crate::files::wire::VERSION == 1,
        crate::bridge::wire::VERSION == 1,
        crate::portal::protocol::VERSION == 6,
        crate::portal::compositor::VERSION == 1,
{
}

/// How much goes over each line, and how big what is shown is.
pub proof fn how_big_things_are()
    ensures
        crate::seat::MAX_MSG == 4096 && crate::seat::MAX_FDS == 1,
        crate::policy::seq::MAX_MSG == 65536 && crate::policy::seq::MAX_FDS == 16,
        crate::auth::MAX_MSG == 4096,
        crate::agent::MAX_MESSAGE == 262144,
        crate::policy::client::TIMEOUT == 2 && crate::policy::door::TRIES == 60,
        crate::shell::prompts::DIALOG_WIDTH == 640 && crate::shell::prompts::DIALOG_HEIGHT == 480,
        crate::shell::prompts::DIALOG_SMALL == 180,
        crate::shell::menu::MENU_WIDTH == 520 && crate::shell::menu::MENU_HEIGHT == 420,
        crate::shell::notes::NOTE_WIDTH == 400 && crate::shell::notes::NOTE_HEIGHT == 84,
        crate::os::denied::LOG_LIMIT == 200,
{
}

} // verus!
