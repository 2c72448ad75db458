//! Watching the game folder for a Denuvo ticket: what each signal of the
//! file-system watcher means, the polling fallback, and the progress label.
use vstd::prelude::*;
use crate::files::{is_ticket_name, spec_is_ticket_name};
use crate::text::{push_char, push_str};
use crate::timefmt::{format_time, spec_format_time};

verus! {

/// What the file-system watcher delivered within one wait.
#[derive(Debug)]
pub enum WatchSignal {
    /// A file-system event: whether it creates or modifies something, and
    /// the file names of the paths it concerns.
    Event { create_or_modify: bool, names: Vec<String> },
    /// The watcher reported an error.
    WatchError,
    /// Nothing arrived in time; whether a ticket file is in the folder now.
    Timeout { ticket_present: bool },
    /// The watcher is gone; whether a ticket file is in the folder now.
    Disconnected { ticket_present: bool },
}

/// The verdict after one signal.
#[derive(Clone, Copy, Debug, PartialEq, Eq, Structural)]
pub enum WatchVerdict {
    Found,
    NotFound,
    KeepWatching,
}

/// A ticket is found when an event creates or modifies a `Denuvo_ticket`
/// file, or when a check of the folder (after a quiet wait, or once the
/// watcher is gone) shows one; a gone watcher ends the watch either way.
pub open spec fn spec_watch_signal(create_or_modify: bool, names: Seq<Seq<char>>, kind: int, present: bool) -> WatchVerdict {
    if kind == 0 {
        if create_or_modify && exists|i: int| 0 <= i < names.len() && spec_is_ticket_name(#[trigger] names[i]) {
            WatchVerdict::Found
        } else {
            WatchVerdict::KeepWatching
        }
    } else if kind == 1 {
        WatchVerdict::KeepWatching
    } else if kind == 2 {
        if present { WatchVerdict::Found } else { WatchVerdict::KeepWatching }
    } else {
        if present { WatchVerdict::Found } else { WatchVerdict::NotFound }
    }
}

/// The meaning of one watcher signal.
#[verifier::loop_isolation(false)]
pub fn watch_signal(s: &WatchSignal) -> (r: WatchVerdict)
    ensures
        r == match s {
            WatchSignal::Event { create_or_modify, names } =>
                spec_watch_signal(*create_or_modify, names@.map_values(|n: String| n@), 0, false),
            WatchSignal::WatchError => spec_watch_signal(false, Seq::empty(), 1, false),
            WatchSignal::Timeout { ticket_present } => spec_watch_signal(false, Seq::empty(), 2, *ticket_present),
            WatchSignal::Disconnected { ticket_present } => spec_watch_signal(false, Seq::empty(), 3, *ticket_present),
        },
{
    match s {
        WatchSignal::Event { create_or_modify, names } => {
            let ghost views = names@.map_values(|n: String| n@);
            if !*create_or_modify {
                return WatchVerdict::KeepWatching;
            }
            let mut i: usize = 0;
            while i < names.len()
                invariant
                    views == names@.map_values(|n: String| n@),
                    i <= names@.len(),
                    forall|k: int| 0 <= k < i ==> !spec_is_ticket_name(#[trigger] views[k]),
                decreases names@.len() - i,
            {
                if is_ticket_name(names[i].as_str()) {
                    assert(spec_is_ticket_name(views[i as int]));
                    return WatchVerdict::Found;
                }
                i = i + 1;
            }
            WatchVerdict::KeepWatching
        },
        WatchSignal::WatchError => WatchVerdict::KeepWatching,
        WatchSignal::Timeout { ticket_present } => if *ticket_present {
            WatchVerdict::Found
        } else {
            WatchVerdict::KeepWatching
        },
        WatchSignal::Disconnected { ticket_present } => if *ticket_present {
            WatchVerdict::Found
        } else {
            WatchVerdict::NotFound
        },
    }
}

/// Before each wait: the watch ends without a ticket once the deadline has
/// passed or the run is cancelled.
pub fn watch_goes_on(past_deadline: bool, cancelled: bool) -> (r: bool)
    ensures
        r == (!past_deadline && !cancelled),
{
    !past_deadline && !cancelled
}

/// Without a watcher the folder is polled every 200 ms: five polls per
/// second of the timeout.
pub fn fallback_polls(timeout_secs: u64) -> (r: u64)
    requires
        timeout_secs <= u64::MAX / 5,
    ensures
        r == timeout_secs * 5,
{
    timeout_secs * 5
}

/// Progress label while watching: elapsed and total time.
pub open spec fn spec_watch_label(elapsed: nat, timeout: nat) -> Seq<char> {
    "Game loaded \u{2014} checking for Denuvo tickets... ["@ + spec_format_time(elapsed) + seq!['/']
        + spec_format_time(timeout) + seq![']']
}

/// Progress label while watching.
pub fn watch_label(elapsed: u64, timeout: u64) -> (r: String)
    ensures
        r@ == spec_watch_label(elapsed as nat, timeout as nat),
{
    let mut r = String::new();
    push_str(&mut r, "Game loaded \u{2014} checking for Denuvo tickets... [");
    let a = format_time(elapsed);
    push_str(&mut r, a.as_str());
    push_char(&mut r, '/');
    let b = format_time(timeout);
    push_str(&mut r, b.as_str());
    push_char(&mut r, ']');
    proof {
        assert(r@ =~= spec_watch_label(elapsed as nat, timeout as nat));
    }
    r
}

} // verus!
