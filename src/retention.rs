//! Deferred deletion of each artifact a fixed time after it was stored.
use vstd::prelude::*;

use crate::naming::NameRegistry;

verus! {

/// How long an artifact is kept: seven days, in seconds.
pub const RETENTION_SECS: u64 = 604800;

/// The moment an artifact stored at `created` with a window of `ttl` seconds
/// is deleted; the clock's last second when that lies beyond it.
pub open spec fn due_at(created: u64, ttl: u64) -> u64 {
    if created + ttl <= u64::MAX {
        (created + ttl) as u64
    } else {
        u64::MAX
    }
}

/// One pending deletion: which artifact, and when.
pub struct RetentionTask {
    name: String,
    due: u64,
}

impl RetentionTask {
    pub closed spec fn name_view(&self) -> Seq<char> {
        self.name@
    }

    pub closed spec fn due_view(&self) -> u64 {
        self.due
    }

    /// The deletion of `name`, stored at `created` (seconds), after `ttl` seconds.
    pub fn new(name: &str, created: u64, ttl: u64) -> (r: RetentionTask)
        ensures
            r.name_view() == name@,
            r.due_view() == due_at(created, ttl),
    {
        let due = if created <= u64::MAX - ttl {
            created + ttl
        } else {
            u64::MAX
        };
        RetentionTask { name: String::from_str(name), due }
    }

    /// The artifact to delete.
    pub fn name(&self) -> (r: &str)
        ensures
            r@ == self.name_view(),
    {
        self.name.as_str()
    }

    /// When the deletion is due, in seconds.
    pub fn due(&self) -> (r: u64)
        ensures
            r == self.due_view(),
    {
        self.due
    }

    /// Whether the retention window has elapsed at `now`.
    pub fn is_due(&self, now: u64) -> (r: bool)
        ensures
            r == (now >= self.due_view()),
    {
        now >= self.due
    }

    /// Seconds still to wait at `now` before the deletion is due.
    pub fn wait_secs(&self, now: u64) -> (r: u64)
        ensures
            now + r == self.due_view() || (r == 0 && now >= self.due_view()),
    {
        if now >= self.due {
            0
        } else {
            self.due - now
        }
    }

    /// Fires the task: the artifact is no longer live, whether or not it
    /// still was. Nothing else changes.
    pub fn fire(&self, registry: &mut NameRegistry)
        requires
            old(registry).wf(),
        ensures
            final(registry).wf(),
            !final(registry)@.contains(self.name_view()),
            forall|x: Seq<char>| x != self.name_view() ==> (final(registry)@.contains(x) <==> old(registry)@.contains(x)),
    {
        registry.release(self.name.as_str());
    }
}

/// Within the retention window an artifact's deletion is not yet due; from the
/// window's end on it is. When the window reaches past the clock's range the
/// deletion is due at the clock's last second, so that one moment is left out.
pub proof fn lemma_retention_window(created: u64, ttl: u64, now: u64)
    ensures
        now >= created + ttl ==> now >= due_at(created, ttl),
        now < created + ttl && (created + ttl <= u64::MAX || now < u64::MAX) ==> now < due_at(created, ttl),
{
}

} // verus!
