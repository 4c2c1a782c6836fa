//! What a client may have left behind in a session.
use vstd::prelude::*;

verus! {

/// What has to be cleaned up before the next client gets the session.
#[derive(Debug, Clone, Copy, PartialEq, Eq, Structural)]
pub struct CleanupState {
    /// A parameter may have been set.
    pub needs_cleanup_set: bool,
    /// A statement may have been prepared.
    pub needs_cleanup_prepare: bool,
    /// A cursor may be open.
    pub needs_cleanup_declare: bool,
}

/// Nothing to clean up.
pub open spec fn clean() -> CleanupState {
    CleanupState {
        needs_cleanup_set: false,
        needs_cleanup_prepare: false,
        needs_cleanup_declare: false,
    }
}

/// Whether anything has to be cleaned up.
pub open spec fn is_dirty(c: CleanupState) -> bool {
    c.needs_cleanup_set || c.needs_cleanup_prepare || c.needs_cleanup_declare
}

impl CleanupState {
    /// Nothing to clean up.
    pub fn new() -> (r: Self)
        ensures
            r == clean(),
    {
        CleanupState {
            needs_cleanup_set: false,
            needs_cleanup_prepare: false,
            needs_cleanup_declare: false,
        }
    }

    /// Whether anything has to be cleaned up.
    pub fn needs_cleanup(&self) -> (r: bool)
        ensures
            r == is_dirty(*self),
    {
        self.needs_cleanup_set || self.needs_cleanup_prepare || self.needs_cleanup_declare
    }

    /// Asks for every kind of cleanup.
    pub fn set_true(&mut self)
        ensures
            *final(self) == (CleanupState {
                needs_cleanup_set: true,
                needs_cleanup_prepare: true,
                needs_cleanup_declare: true,
            }),
    {
        self.needs_cleanup_set = true;
        self.needs_cleanup_prepare = true;
        self.needs_cleanup_declare = true;
    }

    /// Nothing is left to clean up.
    pub fn reset(&mut self)
        ensures
            *final(self) == clean(),
    {
        self.needs_cleanup_set = false;
        self.needs_cleanup_prepare = false;
        self.needs_cleanup_declare = false;
    }
}

} // verus!
