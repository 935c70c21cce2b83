//! Decisions and labels of the desktop window of a screen sharer.

use vstd::prelude::*;

verus! {

/// How a sharer is listed in the desktop window.
pub open spec fn desktop_sharer(hostname: Seq<char>, ip: Seq<char>, sharing: Seq<char>) -> Seq<char> {
    hostname + " ("@ + ip + ")"@ + if sharing.len() == 0 {
        Seq::<char>::empty()
    } else {
        " — "@ + sharing
    }
}

/// How a sharer is listed in the desktop window: host and address, and
/// what it shares if it says.
pub fn desktop_sharer_label(hostname: &str, ip: &str, sharing: &str) -> (res: String)
    ensures
        res@ == desktop_sharer(hostname@, ip@, sharing@),
{
    let mut res = String::from_str(hostname);
    res.append(" (");
    res.append(ip);
    res.append(")");
    if !sharing.is_empty() {
        res.append(" — ");
        res.append(sharing);
    }
    res
}

/// Whether the desktop window refreshes its list of windows: not while
/// sharing, and at most every two seconds.
pub fn should_refresh_windows(is_sharing: bool, secs_since_refresh: u64) -> (res: bool)
    ensures
        res == (!is_sharing && secs_since_refresh >= 2),
{
    !is_sharing && secs_since_refresh >= 2
}

} // verus!
