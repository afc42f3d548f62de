//! The process's storage directory and its orderly shutdown.
use vstd::prelude::*;

use tempfile::TempDir;

verus! {

#[verifier::external_type_specification]
#[verifier::external_body]
pub struct ExTempDir(TempDir);

/// Owns the storage directory from start-up until shutdown takes it.
pub struct EphemeralStore {
    dir: Option<TempDir>,
}

impl EphemeralStore {
    /// The directory the store holds, until shutdown takes it.
    pub closed spec fn held(&self) -> Option<TempDir> {
        self.dir
    }

    /// Whether the directory is still held, so paths under it may be handed out.
    pub open spec fn is_open(&self) -> bool {
        self.held() is Some
    }

    /// A store that holds `dir`.
    pub fn new(dir: TempDir) -> (r: EphemeralStore)
        ensures
            r.held() == Some(dir),
    {
        EphemeralStore { dir: Some(dir) }
    }

    pub fn is_available(&self) -> (r: bool)
        ensures
            r == self.is_open(),
    {
        self.dir.is_some()
    }

    /// The directory, while the store is open: every call hands out the one
    /// directory the store holds.
    pub fn dir(&self) -> (r: Option<&TempDir>)
        ensures
            match r {
                Some(d) => self.held() == Some(*d),
                None => self.held() is None,
            },
    {
        match &self.dir {
            Some(d) => Some(d),
            None => None,
        }
    }

    /// Takes the directory for removal. The first call hands it out; from then
    /// on the store is closed and later calls hand out nothing, so shutting
    /// down twice is the same as shutting down once.
    pub fn take_for_shutdown(&mut self) -> (r: Option<TempDir>)
        ensures
            final(self).held() is None,
            r == old(self).held(),
    {
        self.dir.take()
    }
}

/// Why the server stops, and how far stopping has got.
#[derive(PartialEq, Eq, Structural, Clone, Copy, Debug)]
pub enum ShutdownPhase {
    Serving,
    Draining,
    Stopped,
}

/// Races stop triggers against the serving loop: the first trigger wins, the
/// listener stops, and the store is drained before the process may exit.
pub struct ShutdownCoordinator {
    phase: ShutdownPhase,
    reason: Option<String>,
}

impl ShutdownCoordinator {
    pub closed spec fn phase_view(&self) -> ShutdownPhase {
        self.phase
    }

    pub closed spec fn reason_view(&self) -> Option<Seq<char>> {
        crate::text::opt_chars(self.reason)
    }

    pub fn new() -> (r: ShutdownCoordinator)
        ensures
            r.phase_view() == ShutdownPhase::Serving,
            r.reason_view() is None,
    {
        ShutdownCoordinator { phase: ShutdownPhase::Serving, reason: None }
    }

    pub fn phase(&self) -> (r: ShutdownPhase)
        ensures
            r == self.phase_view(),
    {
        self.phase
    }

    /// The trigger that won, once one has.
    pub fn reason(&self) -> (r: Option<&str>)
        ensures
            crate::text::opt_str_chars(r) == self.reason_view(),
    {
        match &self.reason {
            Some(s) => Some(s.as_str()),
            None => None,
        }
    }

    /// A stop trigger fired. Only the first one counts: it moves a serving
    /// server to draining and is recorded; `true` tells the caller to drain.
    pub fn trigger(&mut self, reason: &str) -> (r: bool)
        ensures
            r == (old(self).phase_view() == ShutdownPhase::Serving),
            r ==> final(self).phase_view() == ShutdownPhase::Draining && final(self).reason_view() == Some(reason@),
            !r ==> final(self).phase_view() == old(self).phase_view() && final(self).reason_view() == old(self).reason_view(),
    {
        if self.phase == ShutdownPhase::Serving {
            self.phase = ShutdownPhase::Draining;
            self.reason = Some(String::from_str(reason));
            true
        } else {
            false
        }
    }

    /// Drains the store: its directory is taken for removal, and the server
    /// counts as stopped. Returns the directory to remove, if it was still held.
    pub fn drain(&mut self, store: &mut EphemeralStore) -> (r: Option<TempDir>)
        requires
            old(self).phase_view() == ShutdownPhase::Draining,
        ensures
            final(self).phase_view() == ShutdownPhase::Stopped,
            final(self).reason_view() == old(self).reason_view(),
            final(store).held() is None,
            r == old(store).held(),
    {
        let dir = store.take_for_shutdown();
        self.phase = ShutdownPhase::Stopped;
        dir
    }
}

} // verus!
