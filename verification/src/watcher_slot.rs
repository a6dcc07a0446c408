//! The slot the filesystem watcher lives in. Watchers are built off the
//! main loop, each for the repository membership of its request; they can
//! finish out of order, and a watcher built for an older membership must
//! never replace one built for a newer one.

use vstd::prelude::*;

verus! {

/// Tickets handed to watcher builds, and the watcher installed last with
/// its ticket (`0`: none yet).
#[derive(Debug)]
pub struct WatcherSlot<W> {
    /// The newest ticket handed out.
    pub requested: u64,
    /// The ticket of the installed watcher.
    pub installed: u64,
    pub watcher: Option<W>,
}

impl<W> WatcherSlot<W> {
    /// An empty slot: nothing requested, nothing installed.
    pub fn new() -> (s: Self)
        ensures
            s.requested == 0,
            s.installed == 0,
            s.watcher is None,
    {
        WatcherSlot { requested: 0, installed: 0, watcher: None }
    }

    /// A ticket for a build of the current membership, newer than every
    /// ticket handed out before.
    pub fn request(&mut self) -> (t: u64)
        requires
            old(self).requested < u64::MAX,
        ensures
            t == old(self).requested + 1,
            final(self).requested == t,
            final(self).installed == old(self).installed,
            final(self).watcher == old(self).watcher,
    {
        self.requested = self.requested + 1;
        self.requested
    }

    /// Installs the watcher built for `ticket`, unless a watcher from a
    /// newer (or the same) ticket is installed already; says whether it
    /// did.
    pub fn install(&mut self, ticket: u64, w: W) -> (r: bool)
        ensures
            r == (ticket > old(self).installed && ticket <= old(self).requested),
            r ==> final(self).installed == ticket && final(self).watcher == Some(w),
            r ==> final(self).requested == old(self).requested,
            !r ==> *final(self) == *old(self),
    {
        if ticket > self.installed && ticket <= self.requested {
            self.installed = ticket;
            self.watcher = Some(w);
            true
        } else {
            false
        }
    }
}

/// An older build never undoes a newer one: once the watcher of ticket `b`
/// is installed, installing the one of an older ticket `a` changes nothing,
/// whatever order the builds finished in.
pub proof fn law_older_build_never_replaces_newer<W>(s: WatcherSlot<W>, a: u64, b: u64)
    requires
        a < b,
        s.installed == b,
    ensures
        !(a > s.installed && a <= s.requested),
{
}

} // verus!
