//! The interceptor of the host's frame-delay function.
//!
//! It goes through `Uninitialized`, `TargetResolved`, `Registered` and
//! `Active`, one step at a time and never back. Each step takes what the
//! platform or the detour mechanism reported and decides the next state. The
//! configured delay is fixed when the interceptor is made and never changes.
//! Handles of the host are carried as plain addresses.
use vstd::prelude::*;

verus! {

/// The distance from the host image's base address to the frame-delay
/// function, for the one host version this shim is built for.
pub const DELAY_FN_OFFSET: usize = 0x580aa0;

#[derive(Clone, Copy, Debug, PartialEq, Eq, Structural)]
pub enum Phase {
    /// Nothing done yet.
    Uninitialized,
    /// The address of the target function is known.
    TargetResolved,
    /// The detour is registered but not yet enabled.
    Registered,
    /// The detour is enabled and receives every call of the target.
    Active,
}

/// Why a step of the initialisation stopped.
#[derive(Clone, Copy, Debug, PartialEq, Eq, Structural)]
pub enum InitError {
    /// The step was asked for in a phase other than the one it follows.
    OutOfOrder,
    /// The platform gave no handle for the host's own image.
    NoModuleHandle,
    /// The base address plus the offset does not fit in an address.
    AddressOverflow,
    /// The detour could not be registered.
    RegistrationFailed,
    /// The detour could not be enabled.
    EnableFailed,
}

/// The address of the target function in an image loaded at `base`, if it is
/// an address.
pub open spec fn target_of(base: usize) -> Option<usize> {
    if base + DELAY_FN_OFFSET <= usize::MAX {
        Some((base + DELAY_FN_OFFSET) as usize)
    } else {
        None
    }
}

pub struct Interceptor {
    phase: Phase,
    target: usize,
    delay: usize,
}

impl Interceptor {
    pub closed spec fn spec_phase(&self) -> Phase {
        self.phase
    }

    /// The address of the target function, meaningful once it is resolved.
    pub closed spec fn spec_target(&self) -> usize {
        self.target
    }

    pub closed spec fn spec_delay(&self) -> usize {
        self.delay
    }

    /// A new interceptor that will pass `delay` to the target function.
    pub fn new(delay: usize) -> (r: Interceptor)
        ensures
            r.spec_phase() == Phase::Uninitialized,
            r.spec_delay() == delay,
    {
        Interceptor { phase: Phase::Uninitialized, target: 0, delay }
    }

    pub fn phase(&self) -> (r: Phase)
        ensures
            r == self.spec_phase(),
    {
        self.phase
    }

    /// The delay that every intercepted call passes on.
    pub fn configured_delay(&self) -> (r: usize)
        ensures
            r == self.spec_delay(),
    {
        self.delay
    }

    /// The address of the target function, once it is resolved.
    pub fn target_address(&self) -> (r: Option<usize>)
        ensures
            r == (if self.spec_phase() == Phase::Uninitialized {
                None::<usize>
            } else {
                Some(self.spec_target())
            }),
    {
        if self.phase == Phase::Uninitialized {
            None
        } else {
            Some(self.target)
        }
    }

    /// The first step: from the base address of the host's own image, as the
    /// platform reported it, the address of the target function. Only an
    /// interceptor that has done nothing yet takes it; on any error the
    /// interceptor is left as it was.
    pub fn resolve_target(&mut self, module_base: Option<usize>) -> (r: Result<usize, InitError>)
        ensures
            final(self).spec_delay() == old(self).spec_delay(),
            old(self).spec_phase() != Phase::Uninitialized ==> r == Err::<usize, InitError>(
                InitError::OutOfOrder,
            ),
            old(self).spec_phase() == Phase::Uninitialized && module_base is None ==> r == Err::<
                usize,
                InitError,
            >(InitError::NoModuleHandle),
            old(self).spec_phase() == Phase::Uninitialized && module_base is Some && target_of(
                module_base->0,
            ) is None ==> r == Err::<usize, InitError>(InitError::AddressOverflow),
            old(self).spec_phase() == Phase::Uninitialized && module_base is Some && target_of(
                module_base->0,
            ) is Some ==> r == Ok::<usize, InitError>(target_of(module_base->0)->0),
            r is Ok ==> final(self).spec_phase() == Phase::TargetResolved,
            r is Ok ==> final(self).spec_target() == r->Ok_0,
            r is Err ==> *final(self) == *old(self),
    {
        if self.phase != Phase::Uninitialized {
            return Err(InitError::OutOfOrder);
        }
        match module_base {
            None => Err(InitError::NoModuleHandle),
            Some(base) => match base.checked_add(DELAY_FN_OFFSET) {
                None => Err(InitError::AddressOverflow),
                Some(target) => {
                    self.phase = Phase::TargetResolved;
                    self.target = target;
                    Ok(target)
                },
            },
        }
    }

    /// The second step: whether the detour from the target address was
    /// registered. Only a resolved interceptor takes it; on any error the
    /// interceptor is left as it was.
    pub fn record_registration(&mut self, registered: bool) -> (r: Result<(), InitError>)
        ensures
            final(self).spec_delay() == old(self).spec_delay(),
            final(self).spec_target() == old(self).spec_target(),
            old(self).spec_phase() != Phase::TargetResolved ==> r == Err::<(), InitError>(
                InitError::OutOfOrder,
            ),
            old(self).spec_phase() == Phase::TargetResolved && !registered ==> r == Err::<
                (),
                InitError,
            >(InitError::RegistrationFailed),
            old(self).spec_phase() == Phase::TargetResolved && registered ==> r == Ok::<
                (),
                InitError,
            >(()),
            r is Ok ==> final(self).spec_phase() == Phase::Registered,
            r is Err ==> *final(self) == *old(self),
    {
        if self.phase != Phase::TargetResolved {
            return Err(InitError::OutOfOrder);
        }
        if !registered {
            return Err(InitError::RegistrationFailed);
        }
        self.phase = Phase::Registered;
        Ok(())
    }

    /// The last step: whether the registered detour was enabled. Only a
    /// registered interceptor takes it; on any error the interceptor is left
    /// as it was.
    pub fn record_enable(&mut self, enabled: bool) -> (r: Result<(), InitError>)
        ensures
            final(self).spec_delay() == old(self).spec_delay(),
            final(self).spec_target() == old(self).spec_target(),
            old(self).spec_phase() != Phase::Registered ==> r == Err::<(), InitError>(
                InitError::OutOfOrder,
            ),
            old(self).spec_phase() == Phase::Registered && !enabled ==> r == Err::<(), InitError>(
                InitError::EnableFailed,
            ),
            old(self).spec_phase() == Phase::Registered && enabled ==> r == Ok::<(), InitError>(()),
            r is Ok ==> final(self).spec_phase() == Phase::Active,
            r is Err ==> *final(self) == *old(self),
    {
        if self.phase != Phase::Registered {
            return Err(InitError::OutOfOrder);
        }
        if !enabled {
            return Err(InitError::EnableFailed);
        }
        self.phase = Phase::Active;
        Ok(())
    }

    /// What the detour does on each call of the target function: it calls the
    /// unhooked target, `original`, with the first two arguments unchanged and
    /// the configured delay in place of the caller's, and returns what that
    /// call returns.
    pub fn call_original<F: Fn(usize, usize, usize) -> usize>(
        &self,
        original: &F,
        session: usize,
        peer: usize,
        _caller_delay: usize,
    ) -> (r: usize)
        requires
            original.requires((session, peer, self.spec_delay())),
        ensures
            original.ensures((session, peer, self.spec_delay()), r),
    {
        original(session, peer, self.delay)
    }
}

} // verus!
