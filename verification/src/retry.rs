use vstd::prelude::*;

verus! {

/// Outcome of one attempt of a non-blocking operation against the owned
/// resource, as the OS reports it.
#[derive(Clone, Copy, PartialEq, Eq, Structural, Debug)]
pub enum IoAttempt {
    /// The operation completed and transferred this many bytes.
    Done(usize),
    /// The operation cannot complete without blocking; the caller must try
    /// again after the next readiness event.
    WouldBlock,
    /// The operation was interrupted by signal delivery; the adapter retries
    /// it and the caller never observes this.
    Interrupted,
    /// Any other OS error, identified by its code; surfaced verbatim.
    Failed(i32),
}

/// The first outcome at or after position `i` that is not `Interrupted`:
/// what a retry-on-interrupt loop settles on.
pub open spec fn settled_from(s: Seq<IoAttempt>, i: int) -> Option<IoAttempt>
    decreases s.len() - i,
{
    if i < 0 || i >= s.len() {
        None
    } else if !(s[i] is Interrupted) {
        Some(s[i])
    } else {
        settled_from(s, i + 1)
    }
}

/// The outcome that `do_io` reports for an operation whose successive
/// attempts would produce `s`.
pub open spec fn settled_outcome(s: Seq<IoAttempt>) -> Option<IoAttempt> {
    settled_from(s, 0)
}

/// Whether the adapter retries this outcome internally. Only
/// interrupted-by-signal is retried: would-block belongs to the caller, who
/// retries after the next readiness event, and every other outcome is final.
pub fn retried_internally(a: &IoAttempt) -> (r: bool)
    ensures
        r == (a is Interrupted),
{
    match a {
        IoAttempt::Interrupted => true,
        _ => false,
    }
}

/// The retry rule of `do_io`, applied to the attempts an operation would
/// produce in order: run the operation again while it reports interrupted,
/// and hand the first other outcome — success, would-block, or a real
/// error — to the caller unchanged. The caller therefore never observes an
/// interrupted attempt, and would-block is never retried on its behalf.
pub fn resolve_attempts(attempts: &Vec<IoAttempt>) -> (r: IoAttempt)
    requires
        settled_outcome(attempts@) is Some,
    ensures
        !(r is Interrupted),
        Some(r) == settled_outcome(attempts@),
{
    let n = attempts.len();
    let mut i: usize = 0;
    while i < n
        invariant
            0 <= i <= n,
            n == attempts@.len(),
            settled_outcome(attempts@) == settled_from(attempts@, i as int),
            settled_outcome(attempts@) is Some,
        decreases n - i,
    {
        let a = attempts[i];
        if retried_internally(&a) {
            i = i + 1;
        } else {
            return a;
        }
    }
    proof {
        assert(settled_from(attempts@, n as int) is None);
    }
    unreached()
}

} // verus!
