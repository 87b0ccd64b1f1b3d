use vstd::prelude::*;

use crate::interest::Interest;
use crate::registration::{RegError, RegState};
use crate::registry::{FdEntry, Registry};
use crate::retry::{resolve_attempts, settled_outcome, IoAttempt};
use crate::token::Token;

verus! {

/// Non-blocking I/O adapter: exclusively owns one OS resource, identified to
/// the reactor by its descriptor, and carries the adapter-local registration
/// state. It implements the capability contract by forwarding to the
/// reactor's descriptor primitives, and its `do_io` applies the retry rule:
/// interrupted attempts are repeated transparently, everything else —
/// success, would-block, or a real error — reaches the caller unchanged.
#[derive(Debug)]
pub struct IoSource<T> {
    resource: T,
    fd: i32,
    state: RegState,
}

impl<T> IoSource<T> {
    /// The wrapped resource.
    pub closed spec fn spec_resource(self) -> T {
        self.resource
    }

    /// The descriptor the resource is known by to the reactor.
    pub closed spec fn spec_fd(self) -> i32 {
        self.fd
    }

    /// The adapter-local registration state.
    pub closed spec fn spec_state(self) -> RegState {
        self.state
    }

    /// Wraps an already-open resource, unregistered. The caller must have
    /// put the resource in non-blocking mode; `fd` is its descriptor.
    pub fn new(resource: T, fd: i32) -> (r: IoSource<T>)
        ensures
            r.spec_resource() == resource,
            r.spec_fd() == fd,
            r.spec_state() == RegState::Unregistered,
    {
        IoSource { resource, fd, state: RegState::Unregistered }
    }

    /// Consumes the adapter and returns the wrapped resource, for use when
    /// the resource must be repurposed outside the reactor.
    pub fn into_inner(self) -> (r: T)
        ensures
            r == self.spec_resource(),
    {
        self.resource
    }

    /// Borrows the wrapped resource, for running an operation against it.
    pub fn inner(&self) -> (r: &T)
        ensures
            *r == self.spec_resource(),
    {
        &self.resource
    }

    /// Runs an operation whose successive attempts against the resource
    /// would produce `attempts`, applying the retry rule: the result is the
    /// first attempt that is not interrupted, unchanged. The caller never
    /// observes an interrupted attempt, and would-block is never retried on
    /// the caller's behalf.
    pub fn do_io(&self, attempts: &Vec<IoAttempt>) -> (r: IoAttempt)
        requires
            settled_outcome(attempts@) is Some,
        ensures
            !(r is Interrupted),
            Some(r) == settled_outcome(attempts@),
    {
        resolve_attempts(attempts)
    }

    /// Registers the resource with the reactor under `token` and
    /// `interests`. Succeeds exactly when this adapter is unregistered and
    /// the reactor does not already track the descriptor; on success the
    /// adapter records the reactor it is now registered with.
    pub fn register(&mut self, registry: &mut Registry, token: Token, interests: Interest) -> (r:
        Result<(), RegError>)
        requires
            old(registry).wf(),
        ensures
            final(registry).wf(),
            final(registry).spec_id() == old(registry).spec_id(),
            final(self).spec_resource() == old(self).spec_resource(),
            final(self).spec_fd() == old(self).spec_fd(),
            r is Ok <==> (old(self).spec_state() is Unregistered && !old(registry).contains_fd(
                old(self).spec_fd(),
            )),
            match r {
                Ok(()) => {
                    &&& final(self).spec_state() == (RegState::Registered {
                        reactor: old(registry).spec_id(),
                        token,
                        interests,
                    })
                    &&& final(registry).table() == old(registry).table().push(
                        FdEntry { fd: old(self).spec_fd(), token, interests },
                    )
                },
                Err(e) => {
                    &&& e == RegError::AlreadyRegistered
                    &&& final(self).spec_state() == old(self).spec_state()
                    &&& *final(registry) == *old(registry)
                },
            },
    {
        match self.state {
            RegState::Registered { .. } => Err(RegError::AlreadyRegistered),
            RegState::Unregistered => {
                let result = registry.register_fd(self.fd, token, interests);
                match result {
                    Ok(()) => {
                        self.state = RegState::Registered {
                            reactor: registry.id_value(),
                            token,
                            interests,
                        };
                        Ok(())
                    },
                    Err(e) => Err(e),
                }
            },
        }
    }

    /// Replaces the token and interests for an already-registered resource.
    /// Succeeds exactly when this adapter is registered with this same
    /// reactor and the reactor still tracks the descriptor.
    pub fn reregister(&mut self, registry: &mut Registry, token: Token, interests: Interest) -> (r:
        Result<(), RegError>)
        requires
            old(registry).wf(),
        ensures
            final(registry).wf(),
            final(registry).spec_id() == old(registry).spec_id(),
            final(self).spec_resource() == old(self).spec_resource(),
            final(self).spec_fd() == old(self).spec_fd(),
            r is Ok <==> (old(self).spec_state() matches RegState::Registered { reactor, .. }
                && reactor == old(registry).spec_id() && old(registry).contains_fd(
                old(self).spec_fd(),
            )),
            match r {
                Ok(()) => {
                    &&& final(self).spec_state() == (RegState::Registered {
                        reactor: old(registry).spec_id(),
                        token,
                        interests,
                    })
                    &&& final(registry).table() == old(registry).table().update(
                        old(registry).index_of(old(self).spec_fd()),
                        FdEntry { fd: old(self).spec_fd(), token, interests },
                    )
                },
                Err(e) => {
                    &&& e == RegError::NotRegistered
                    &&& final(self).spec_state() == old(self).spec_state()
                    &&& *final(registry) == *old(registry)
                },
            },
    {
        match self.state {
            RegState::Unregistered => Err(RegError::NotRegistered),
            RegState::Registered { reactor, .. } => {
                if reactor != registry.id_value() {
                    return Err(RegError::NotRegistered);
                }
                let result = registry.reregister_fd(self.fd, token, interests);
                match result {
                    Ok(()) => {
                        self.state = RegState::Registered { reactor, token, interests };
                        Ok(())
                    },
                    Err(_) => Err(RegError::NotRegistered),
                }
            },
        }
    }

    /// Removes the resource from the reactor; no further events are
    /// produced for its token. Succeeds exactly when this adapter is
    /// registered with this same reactor and the reactor still tracks the
    /// descriptor; on success the adapter is unregistered again.
    pub fn deregister(&mut self, registry: &mut Registry) -> (r: Result<(), RegError>)
        requires
            old(registry).wf(),
        ensures
            final(registry).wf(),
            final(registry).spec_id() == old(registry).spec_id(),
            final(self).spec_resource() == old(self).spec_resource(),
            final(self).spec_fd() == old(self).spec_fd(),
            r is Ok <==> (old(self).spec_state() matches RegState::Registered { reactor, .. }
                && reactor == old(registry).spec_id() && old(registry).contains_fd(
                old(self).spec_fd(),
            )),
            match r {
                Ok(()) => {
                    &&& final(self).spec_state() == RegState::Unregistered
                    &&& final(registry).table() == old(registry).table().remove(
                        old(registry).index_of(old(self).spec_fd()),
                    )
                    &&& !final(registry).contains_fd(old(self).spec_fd())
                },
                Err(e) => {
                    &&& e == RegError::NotRegistered
                    &&& final(self).spec_state() == old(self).spec_state()
                    &&& *final(registry) == *old(registry)
                },
            },
    {
        match self.state {
            RegState::Unregistered => Err(RegError::NotRegistered),
            RegState::Registered { reactor, .. } => {
                if reactor != registry.id_value() {
                    return Err(RegError::NotRegistered);
                }
                let result = registry.deregister_fd(self.fd);
                match result {
                    Ok(()) => {
                        self.state = RegState::Unregistered;
                        Ok(())
                    },
                    Err(_) => Err(RegError::NotRegistered),
                }
            },
        }
    }
}

} // verus!
