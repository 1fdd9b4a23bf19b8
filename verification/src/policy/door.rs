//! An app-facing service's door: every connection is keyed on the peer UID and on what
//! drv-appd says that UID is. The app never names itself, and a UID drv-appd does not know is
//! nobody.
use vstd::prelude::*;
use vstd::string::*;

use super::{AppPolicy, PolicyView};
use crate::text::{decimal, number};

verus! {

/// Where drv-appd answers, where nothing else is said.
pub const APPD_SOCKET: &'static str = "/run/drv/appd.sock";

/// How often a connection to drv-appd is tried again.
pub const TRIES: u32 = 60;

/// Whether a connection that failed is tried once more, after `tries` tries.
pub fn try_again(tries: u32) -> (r: bool)
    ensures
        r == (tries < TRIES),
{
    tries < TRIES
}

/// Who `uid` is, by drv-appd's record. A UID it does not know is an error: not an app.
pub fn who(uid: u32, policy: AppPolicy) -> (r: Result<AppPolicy, String>)
    ensures
        match r {
            Ok(p) => policy@ != PolicyView::unknown() && p == policy,
            Err(e) => policy@ == PolicyView::unknown() && e@ == "uid "@ + decimal(uid as nat)
                + " is not an app"@,
        },
{
    if policy.is_unknown() {
        let mut text = "uid ".to_owned();
        text.append(number(uid as u64).as_str());
        text.append(" is not an app");
        return Err(text);
    }
    Ok(policy)
}

} // verus!
