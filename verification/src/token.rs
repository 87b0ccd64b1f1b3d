use vstd::prelude::*;

verus! {

/// Opaque correlation token: identifies a registered resource within one
/// reactor instance. Caller-assigned, stable for the lifetime of a
/// registration, and compared only for equality.
#[derive(Clone, Copy, PartialEq, Eq, Structural, Debug, Hash)]
pub struct Token(pub usize);

} // verus!
