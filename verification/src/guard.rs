//! The bookkeeping of the raw-mode guard.
//!
//! Switching the terminal is the caller's business. The guard only records
//! whether the terminal is still in raw mode, so that the caller restores it
//! once and only once, however often and from wherever release is asked for.

use vstd::prelude::*;

verus! {

/// The mathematical content of a `ModeGuard`: whether the terminal is still
/// in raw mode on its account.
pub struct ModeGuardView {
    pub raw: bool,
}

impl ModeGuardView {
    /// Releasing: the terminal has to be restored exactly when it was still
    /// raw, and afterwards it is not raw.
    pub open spec fn release(self) -> (ModeGuardView, bool) {
        (ModeGuardView { raw: false }, self.raw)
    }

    /// The guard after `calls` releases.
    pub open spec fn after(self, calls: nat) -> ModeGuardView
        decreases calls,
    {
        if calls == 0 {
            self
        } else {
            self.after((calls - 1) as nat).release().0
        }
    }

    /// How many of `calls` releases in a row ask for the terminal to be
    /// restored.
    pub open spec fn restores(self, calls: nat) -> nat
        decreases calls,
    {
        if calls == 0 {
            0
        } else {
            let earlier = (calls - 1) as nat;
            if self.after(earlier).release().1 {
                self.restores(earlier) + 1
            } else {
                self.restores(earlier)
            }
        }
    }
}

/// Stands for the terminal being in raw mode.
pub struct ModeGuard {
    raw: bool,
}

impl View for ModeGuard {
    type V = ModeGuardView;

    closed spec fn view(&self) -> ModeGuardView {
        ModeGuardView { raw: self.raw }
    }
}

impl ModeGuard {
    /// The guard for a terminal that was just put into raw mode.
    pub fn acquired() -> (guard: ModeGuard)
        ensures
            guard@.raw,
    {
        ModeGuard { raw: true }
    }

    /// Whether the terminal is still in raw mode on account of this guard.
    pub fn is_raw(&self) -> (raw: bool)
        ensures
            raw == self@.raw,
    {
        self.raw
    }

    /// Releases the guard and says whether the caller has to restore the
    /// terminal now. Only the first release says so.
    pub fn release(&mut self) -> (restore: bool)
        ensures
            (final(self)@, restore) == old(self)@.release(),
    {
        let restore = self.raw;
        self.raw = false;
        restore
    }
}

/// Release is idempotent: a second release changes nothing and asks for
/// nothing.
pub proof fn lemma_release_is_idempotent(guard: ModeGuardView)
    ensures
        guard.release().0.release() == (guard.release().0, false),
{
}

/// However many times a held guard is released, the terminal is restored
/// exactly once, and by the first release.
pub proof fn lemma_restored_exactly_once(guard: ModeGuardView, calls: nat)
    requires
        guard.raw,
        calls >= 1,
    ensures
        guard.restores(calls) == 1,
        guard.release().1,
        !guard.after(calls).raw,
    decreases calls,
{
    if calls > 1 {
        lemma_restored_exactly_once(guard, (calls - 1) as nat);
    } else {
        assert(guard.after(0) == guard);
        assert(guard.restores(0) == 0);
    }
}

} // verus!
