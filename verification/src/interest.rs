use vstd::prelude::*;

verus! {

/// Interest set: which readiness transitions the caller wants reported for a
/// token. A set over {readable, writable} that is never empty: an interest
/// with nothing in it cannot be registered, so it cannot be built.
#[derive(Clone, Copy, PartialEq, Eq, Structural, Debug, Hash)]
pub struct Interest {
    readable: bool,
    writable: bool,
}

impl Interest {
    /// A well-formed interest set names at least one readiness kind.
    pub open spec fn wf(self) -> bool {
        self.spec_readable() || self.spec_writable()
    }

    pub closed spec fn spec_readable(self) -> bool {
        self.readable
    }

    pub closed spec fn spec_writable(self) -> bool {
        self.writable
    }

    /// Interest in readable transitions only.
    pub fn readable() -> (r: Interest)
        ensures
            r.wf(),
            r.spec_readable(),
            !r.spec_writable(),
    {
        Interest { readable: true, writable: false }
    }

    /// Interest in writable transitions only.
    pub fn writable() -> (r: Interest)
        ensures
            r.wf(),
            !r.spec_readable(),
            r.spec_writable(),
    {
        Interest { readable: false, writable: true }
    }

    pub fn is_readable(&self) -> (r: bool)
        ensures
            r == self.spec_readable(),
    {
        self.readable
    }

    pub fn is_writable(&self) -> (r: bool)
        ensures
            r == self.spec_writable(),
    {
        self.writable
    }

    /// Union: interest in everything either set names.
    pub fn add(self, other: Interest) -> (r: Interest)
        ensures
            r.spec_readable() == (self.spec_readable() || other.spec_readable()),
            r.spec_writable() == (self.spec_writable() || other.spec_writable()),
            self.wf() ==> r.wf(),
    {
        Interest {
            readable: self.readable || other.readable,
            writable: self.writable || other.writable,
        }
    }

    /// Difference: drops every kind `other` names. `None` when nothing is
    /// left, since an empty interest set is not representable.
    pub fn remove(self, other: Interest) -> (r: Option<Interest>)
        ensures
            match r {
                Some(rest) => {
                    &&& rest.wf()
                    &&& rest.spec_readable() == (self.spec_readable() && !other.spec_readable())
                    &&& rest.spec_writable() == (self.spec_writable() && !other.spec_writable())
                },
                None => {
                    &&& (self.spec_readable() ==> other.spec_readable())
                    &&& (self.spec_writable() ==> other.spec_writable())
                },
            },
    {
        let readable = self.readable && !other.readable;
        let writable = self.writable && !other.writable;
        if readable || writable {
            Some(Interest { readable, writable })
        } else {
            None
        }
    }
}

} // verus!
