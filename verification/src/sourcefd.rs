use vstd::prelude::*;

use crate::interest::Interest;
use crate::registration::RegError;
use crate::registry::{FdEntry, Registry};
use crate::token::Token;

verus! {

/// Adapter for a borrowed raw descriptor: lets any type with a descriptor be
/// registered with the reactor. It does not own the descriptor — it never
/// closes it, performs no I/O itself, and is typically built transiently,
/// right before a single register, reregister or deregister call. The
/// referenced descriptor must stay valid for as long as it stays registered.
pub struct SourceFd<'a>(pub &'a i32);

impl<'a> SourceFd<'a> {
    /// Registers the borrowed descriptor with the reactor under `token` and
    /// `interests`, by the reactor's low-level descriptor primitive.
    /// Succeeds exactly when the reactor does not already track it.
    pub fn register(&mut self, registry: &mut Registry, token: Token, interests: Interest) -> (r:
        Result<(), RegError>)
        requires
            old(registry).wf(),
        ensures
            *final(self) == *old(self),
            final(registry).wf(),
            final(registry).spec_id() == old(registry).spec_id(),
            r is Ok <==> !old(registry).contains_fd(*old(self).0),
            match r {
                Ok(()) => final(registry).table() == old(registry).table().push(
                    FdEntry { fd: *old(self).0, token, interests },
                ),
                Err(e) => {
                    &&& e == RegError::AlreadyRegistered
                    &&& *final(registry) == *old(registry)
                },
            },
    {
        registry.register_fd(*self.0, token, interests)
    }

    /// Replaces the token and interests the reactor holds for the borrowed
    /// descriptor. Succeeds exactly when the reactor tracks it.
    pub fn reregister(&mut self, registry: &mut Registry, token: Token, interests: Interest) -> (r:
        Result<(), RegError>)
        requires
            old(registry).wf(),
        ensures
            *final(self) == *old(self),
            final(registry).wf(),
            final(registry).spec_id() == old(registry).spec_id(),
            r is Ok <==> old(registry).contains_fd(*old(self).0),
            match r {
                Ok(()) => final(registry).table() == old(registry).table().update(
                    old(registry).index_of(*old(self).0),
                    FdEntry { fd: *old(self).0, token, interests },
                ),
                Err(e) => {
                    &&& e == RegError::NotRegistered
                    &&& *final(registry) == *old(registry)
                },
            },
    {
        registry.reregister_fd(*self.0, token, interests)
    }

    /// Removes the borrowed descriptor from the reactor, so no further
    /// events are produced for its token. Succeeds exactly when the reactor
    /// tracks it.
    pub fn deregister(&mut self, registry: &mut Registry) -> (r: Result<(), RegError>)
        requires
            old(registry).wf(),
        ensures
            *final(self) == *old(self),
            final(registry).wf(),
            final(registry).spec_id() == old(registry).spec_id(),
            r is Ok <==> old(registry).contains_fd(*old(self).0),
            match r {
                Ok(()) => {
                    &&& final(registry).table() == old(registry).table().remove(
                        old(registry).index_of(*old(self).0),
                    )
                    &&& !final(registry).contains_fd(*old(self).0)
                },
                Err(e) => {
                    &&& e == RegError::NotRegistered
                    &&& *final(registry) == *old(registry)
                },
            },
    {
        registry.deregister_fd(*self.0)
    }
}

} // verus!
