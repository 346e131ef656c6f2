//! The books of one detour: whether it has been given its addresses and
//! whether its redirect is in place.
//!
//! A detour here does not touch code. Each operation says what has to be
//! done to code memory, as a [`Patch`], and the caller does it while no
//! other thread runs. The states are
//! `Uninitialized -> Initialized -> Enabled <-> Disabled`.

use vstd::prelude::*;

verus! {

/// Where a detour stands.
#[derive(Clone, Copy, Debug, PartialEq, Eq, Structural)]
pub enum DetourState {
    /// No addresses yet.
    Uninitialized,
    /// Addresses given, redirect never put in place.
    Initialized,
    /// Redirect in place.
    Enabled,
    /// Redirect taken out again.
    Disabled,
}

/// Why an operation on a detour was refused.
#[derive(Clone, Copy, Debug, PartialEq, Eq, Structural)]
pub enum DetourError {
    /// The detour has not been given its addresses.
    NotInitialized,
    /// The detour has its addresses already.
    AlreadyInitialized,
}

/// A change to code memory that a detour asks for.
#[derive(Clone, Copy, Debug, PartialEq, Eq, Structural)]
pub enum Patch {
    /// Redirect calls of `target` to `replacement`.
    Install { target: usize, replacement: usize },
    /// Take the redirect at `target` out.
    Remove { target: usize },
}

/// One interception slot.
#[derive(Clone, Copy, Debug, PartialEq, Eq, Structural)]
pub struct Detour {
    state: DetourState,
    target: usize,
    replacement: usize,
}

/// The state an attempt to enable leaves behind.
pub open spec fn after_enable(state: DetourState) -> DetourState {
    match state {
        DetourState::Uninitialized => DetourState::Uninitialized,
        _ => DetourState::Enabled,
    }
}

/// The state an attempt to disable leaves behind.
pub open spec fn after_disable(state: DetourState) -> DetourState {
    match state {
        DetourState::Enabled => DetourState::Disabled,
        other => other,
    }
}

/// How many redirects a detour in `state` has in place: one when enabled,
/// none otherwise.
pub open spec fn redirects(state: DetourState) -> int {
    if state == DetourState::Enabled {
        1
    } else {
        0
    }
}

/// By how much a patch changes the number of redirects in place.
pub open spec fn patch_delta(patch: Option<Patch>) -> int {
    match patch {
        Some(Patch::Install { .. }) => 1,
        Some(Patch::Remove { .. }) => -1,
        None => 0,
    }
}

/// The state that taking back `patch` leaves a detour at `target` in: a
/// redirect of its own that did not go in is not in place, one that did not
/// come out still is, and any other patch changes nothing.
pub open spec fn reverted_by(state: DetourState, target: usize, patch: Patch) -> DetourState {
    match (patch, state) {
        (Patch::Install { target: at, .. }, DetourState::Enabled) => if at == target {
            DetourState::Disabled
        } else {
            DetourState::Enabled
        },
        (Patch::Remove { target: at }, DetourState::Disabled) => if at == target {
            DetourState::Enabled
        } else {
            DetourState::Disabled
        },
        (_, state) => state,
    }
}

/// The state that taking back the patches `from..to` of a plan, one after
/// the other, leaves a detour at `target` in.
pub open spec fn reverted_between(
    state: DetourState,
    target: usize,
    plan: Seq<Patch>,
    from: int,
    to: int,
) -> DetourState
    decreases to - from,
{
    if to <= from {
        state
    } else {
        reverted_by(reverted_between(state, target, plan, from, to - 1), target, plan[to - 1])
    }
}

impl Detour {
    /// Where the detour stands.
    pub closed spec fn spec_state(&self) -> DetourState {
        self.state
    }

    /// The address of the function that is intercepted; meaningful once
    /// initialized.
    pub closed spec fn spec_target(&self) -> usize {
        self.target
    }

    /// The address of the function that takes the calls; meaningful once
    /// initialized.
    pub closed spec fn spec_replacement(&self) -> usize {
        self.replacement
    }

    /// Whether two detours have the same addresses.
    pub open spec fn same_addresses(&self, other: &Detour) -> bool {
        self.spec_target() == other.spec_target() && self.spec_replacement()
            == other.spec_replacement()
    }

    /// What `enable` asks of code memory.
    pub open spec fn enable_patch(&self) -> Result<Option<Patch>, DetourError> {
        match self.spec_state() {
            DetourState::Uninitialized => Err(DetourError::NotInitialized),
            DetourState::Enabled => Ok(None),
            _ => Ok(
                Some(
                    Patch::Install {
                        target: self.spec_target(),
                        replacement: self.spec_replacement(),
                    },
                ),
            ),
        }
    }

    /// What `disable` asks of code memory.
    pub open spec fn disable_patch(&self) -> Result<Option<Patch>, DetourError> {
        match self.spec_state() {
            DetourState::Uninitialized => Err(DetourError::NotInitialized),
            DetourState::Enabled => Ok(Some(Patch::Remove { target: self.spec_target() })),
            _ => Ok(None),
        }
    }

    /// The state that taking back `patch` leaves behind.
    pub open spec fn reverted(&self, patch: Patch) -> DetourState {
        reverted_by(self.spec_state(), self.spec_target(), patch)
    }

    /// A detour without addresses.
    pub fn new() -> (detour: Detour)
        ensures
            detour.spec_state() == DetourState::Uninitialized,
    {
        Detour { state: DetourState::Uninitialized, target: 0, replacement: 0 }
    }

    /// Where the detour stands.
    pub fn state(&self) -> (state: DetourState)
        ensures
            state == self.spec_state(),
    {
        self.state
    }

    /// Whether the redirect is in place.
    pub fn is_enabled(&self) -> (enabled: bool)
        ensures
            enabled == (self.spec_state() == DetourState::Enabled),
    {
        self.state == DetourState::Enabled
    }

    /// Gives the detour its addresses: the function to intercept and the
    /// function to send its calls to.
    ///
    /// Works once. A detour that has its addresses refuses new ones and
    /// stays as it is.
    pub fn initialize(&mut self, target_addr: usize, replacement_fn: usize) -> (done: Result<
        (),
        DetourError,
    >)
        ensures
            match old(self).spec_state() {
                DetourState::Uninitialized => {
                    &&& done == Ok::<(), DetourError>(())
                    &&& final(self).spec_state() == DetourState::Initialized
                    &&& final(self).spec_target() == target_addr
                    &&& final(self).spec_replacement() == replacement_fn
                },
                _ => {
                    &&& done == Err::<(), DetourError>(DetourError::AlreadyInitialized)
                    &&& *final(self) == *old(self)
                },
            },
    {
        match self.state {
            DetourState::Uninitialized => {
                self.state = DetourState::Initialized;
                self.target = target_addr;
                self.replacement = replacement_fn;
                Ok(())
            },
            _ => Err(DetourError::AlreadyInitialized),
        }
    }

    /// Puts the redirect in place.
    ///
    /// Returns the patch to write, or `None` where the redirect is in
    /// place already: enabling twice patches once.
    pub fn enable(&mut self) -> (patch: Result<Option<Patch>, DetourError>)
        ensures
            patch == old(self).enable_patch(),
            final(self).spec_state() == after_enable(old(self).spec_state()),
            final(self).same_addresses(old(self)),
    {
        match self.state {
            DetourState::Uninitialized => Err(DetourError::NotInitialized),
            DetourState::Enabled => Ok(None),
            _ => {
                self.state = DetourState::Enabled;
                Ok(Some(Patch::Install { target: self.target, replacement: self.replacement }))
            },
        }
    }

    /// Takes the redirect out.
    ///
    /// Returns the patch to write, or `None` where no redirect is in
    /// place; a detour that was never enabled stays as it is.
    pub fn disable(&mut self) -> (patch: Result<Option<Patch>, DetourError>)
        ensures
            patch == old(self).disable_patch(),
            final(self).spec_state() == after_disable(old(self).spec_state()),
            final(self).same_addresses(old(self)),
    {
        match self.state {
            DetourState::Uninitialized => Err(DetourError::NotInitialized),
            DetourState::Enabled => {
                self.state = DetourState::Disabled;
                Ok(Some(Patch::Remove { target: self.target }))
            },
            _ => Ok(None),
        }
    }

    /// The address of the intercepted function, for a call that is to
    /// reach the original code. Refused before the detour has its
    /// addresses; the same in every later state.
    pub fn call(&self) -> (original: Result<usize, DetourError>)
        ensures
            original == if self.spec_state() == DetourState::Uninitialized {
                Err::<usize, DetourError>(DetourError::NotInitialized)
            } else {
                Ok::<usize, DetourError>(self.spec_target())
            },
    {
        match self.state {
            DetourState::Uninitialized => Err(DetourError::NotInitialized),
            _ => Ok(self.target),
        }
    }

    /// The address that takes the calls while the redirect is in place.
    pub fn replacement(&self) -> (replacement: Result<usize, DetourError>)
        ensures
            replacement == if self.spec_state() == DetourState::Uninitialized {
                Err::<usize, DetourError>(DetourError::NotInitialized)
            } else {
                Ok::<usize, DetourError>(self.spec_replacement())
            },
    {
        match self.state {
            DetourState::Uninitialized => Err(DetourError::NotInitialized),
            _ => Ok(self.replacement),
        }
    }

    /// Takes back the step that asked for `patch`, for a patch that could
    /// not be written: a redirect that did not go in is not in place, one
    /// that did not come out still is. Any other patch changes nothing.
    pub fn revert(&mut self, patch: Patch)
        ensures
            final(self).same_addresses(old(self)),
            final(self).spec_state() == old(self).reverted(patch),
    {
        match (patch, self.state) {
            (Patch::Install { target, .. }, DetourState::Enabled) => {
                if target == self.target {
                    self.state = DetourState::Disabled;
                }
            },
            (Patch::Remove { target }, DetourState::Disabled) => {
                if target == self.target {
                    self.state = DetourState::Enabled;
                }
            },
            _ => {},
        }
    }
}

/// Enabling twice in a row leaves the detour enabled with one redirect in
/// place, and the second time asks for no patch.
pub proof fn lemma_enable_twice(first: &Detour, second: &Detour)
    requires
        first.spec_state() != DetourState::Uninitialized,
        second.spec_state() == after_enable(first.spec_state()),
        second.same_addresses(first),
    ensures
        second.spec_state() == DetourState::Enabled,
        second.enable_patch() == Ok::<Option<Patch>, DetourError>(None),
        after_enable(second.spec_state()) == DetourState::Enabled,
        redirects(after_enable(second.spec_state())) == 1,
{
}

/// Disabling a detour that is not enabled asks for no patch and leaves it
/// as it is; for one that has its addresses it is no error either.
pub proof fn lemma_disable_when_not_enabled(detour: &Detour)
    requires
        detour.spec_state() != DetourState::Enabled,
    ensures
        after_disable(detour.spec_state()) == detour.spec_state(),
        detour.spec_state() != DetourState::Uninitialized ==> detour.disable_patch() == Ok::<
            Option<Patch>,
            DetourError,
        >(None),
{
}

/// The patches asked for keep count of the redirect: after every step that
/// succeeds, the redirects in place are those before plus what the patch
/// adds or takes, and there is never more than one.
pub proof fn lemma_patches_track_redirects(detour: &Detour)
    ensures
        detour.enable_patch() matches Ok(patch) ==> redirects(after_enable(detour.spec_state()))
            == redirects(detour.spec_state()) + patch_delta(patch),
        detour.disable_patch() matches Ok(patch) ==> redirects(after_disable(detour.spec_state()))
            == redirects(detour.spec_state()) + patch_delta(patch),
        0 <= redirects(detour.spec_state()) <= 1,
{
}

/// Once a detour has its addresses, no step takes them away: it never
/// becomes uninitialized again.
pub proof fn lemma_stays_initialized(state: DetourState)
    requires
        state != DetourState::Uninitialized,
    ensures
        after_enable(state) != DetourState::Uninitialized,
        after_disable(state) != DetourState::Uninitialized,
{
}

} // verus!
