use vstd::prelude::*;

use crate::interest::Interest;
use crate::token::Token;

verus! {

/// Errors of the capability contract (register / reregister / deregister).
#[derive(Clone, Copy, PartialEq, Eq, Structural, Debug)]
pub enum RegError {
    /// `register` on a resource that is already registered, or whose
    /// descriptor the reactor already tracks.
    AlreadyRegistered,
    /// `reregister` or `deregister` on a resource that is not currently
    /// registered with this reactor.
    NotRegistered,
}

/// Adapter-local registration state: each resource carries its own record of
/// whether it is registered, and with which reactor, under which token and
/// interests. The invariant "registered with at most one reactor at a time"
/// is enforced by transitioning out of `Unregistered` only through a
/// successful `register` and back only through a successful `deregister`.
#[derive(Clone, Copy, PartialEq, Eq, Structural, Debug)]
pub enum RegState {
    Unregistered,
    Registered { reactor: u64, token: Token, interests: Interest },
}

/// What `register` does to the adapter-local state: it succeeds exactly when
/// the resource is unregistered, and fails without any change otherwise.
pub open spec fn spec_register(
    s: RegState,
    reactor: u64,
    token: Token,
    interests: Interest,
) -> (RegState, Result<(), RegError>) {
    if s is Unregistered {
        (RegState::Registered { reactor, token, interests }, Ok(()))
    } else {
        (s, Err(RegError::AlreadyRegistered))
    }
}

/// What `reregister` does: it succeeds exactly when the resource is currently
/// registered with this same reactor, replacing token and interests; it
/// fails without any change otherwise.
pub open spec fn spec_reregister(
    s: RegState,
    reactor: u64,
    token: Token,
    interests: Interest,
) -> (RegState, Result<(), RegError>) {
    match s {
        RegState::Registered { reactor: cur, token: t0, interests: i0 } => {
            if cur == reactor {
                (RegState::Registered { reactor, token, interests }, Ok(()))
            } else {
                (s, Err(RegError::NotRegistered))
            }
        },
        RegState::Unregistered => (s, Err(RegError::NotRegistered)),
    }
}

/// What `deregister` does: it succeeds exactly when the resource is currently
/// registered with this same reactor, returning it to `Unregistered`; it
/// fails without any change otherwise.
pub open spec fn spec_deregister(s: RegState, reactor: u64) -> (RegState, Result<(), RegError>) {
    match s {
        RegState::Registered { reactor: cur, token: t0, interests: i0 } => {
            if cur == reactor {
                (RegState::Unregistered, Ok(()))
            } else {
                (s, Err(RegError::NotRegistered))
            }
        },
        RegState::Unregistered => (s, Err(RegError::NotRegistered)),
    }
}

/// Law of the capability contract: after a successful `register` of an
/// unregistered resource, a `reregister` under the same reactor and token
/// succeeds and changes only the interest set, while a second `register` of
/// the same resource before any `deregister` fails and changes nothing.
pub proof fn lemma_register_then_reregister(
    reactor: u64,
    token: Token,
    first: Interest,
    second: Interest,
)
    ensures
        ({
            let (s1, r1) = spec_register(RegState::Unregistered, reactor, token, first);
            let (s2, r2) = spec_reregister(s1, reactor, token, second);
            let (s3, r3) = spec_register(s1, reactor, token, second);
            &&& r1 == Ok::<(), RegError>(())
            &&& s1 == (RegState::Registered { reactor, token, interests: first })
            &&& r2 == Ok::<(), RegError>(())
            &&& s2 == (RegState::Registered { reactor, token, interests: second })
            &&& r3 == Err::<(), RegError>(RegError::AlreadyRegistered)
            &&& s3 == s1
        }),
{
}

} // verus!
