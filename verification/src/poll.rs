use vstd::prelude::*;

use crate::interest::Interest;
use crate::registration::RegError;
use crate::registry::{FdEntry, Registry};
use crate::stream::{
    readable_now, spec_read, spec_write, End, PairView, ReadOutcome, ShutdownHow, StreamError,
    StreamPair, incoming, outgoing, read_view_of,
};
use crate::token::Token;

verus! {

/// A readiness event: the correlation token of the resource that became
/// ready, with the readiness flags observed at the poll call.
#[derive(Clone, Copy, PartialEq, Eq, Structural, Debug)]
pub struct Event {
    pub token: Token,
    pub readable: bool,
    pub writable: bool,
}

/// What the controlling loop does with one readiness event.
#[derive(Clone, Copy, PartialEq, Eq, Structural, Debug)]
pub enum Dispatch {
    /// The stream's token: input is ready, read and handle it.
    ReadInput,
    /// The timer's token: the wait elapsed with no qualifying input.
    TimerElapsed,
    /// A token nobody registered: the loop has a bookkeeping error.
    Unknown,
}

/// Dispatches one readiness event by its token: the stream's token means
/// input is ready, the timer's token means the duration elapsed. The input
/// token is checked first, so distinct tokens give an unambiguous answer.
pub fn dispatch(event_token: Token, input_token: Token, timer_token: Token) -> (r: Dispatch)
    ensures
        r is ReadInput <==> event_token == input_token,
        r is TimerElapsed <==> (event_token != input_token && event_token == timer_token),
        r is Unknown <==> (event_token != input_token && event_token != timer_token),
{
    if event_token == input_token {
        Dispatch::ReadInput
    } else if event_token == timer_token {
        Dispatch::TimerElapsed
    } else {
        Dispatch::Unknown
    }
}

/// Whether `fd` occurs in a registration table.
pub open spec fn table_has_fd(table: Seq<FdEntry>, fd: i32) -> bool {
    exists|i: int| 0 <= i < table.len() && table[i].fd == fd
}

/// The event one registration produces at a poll call, if any: nothing for
/// a descriptor that is not an endpoint of the pair; otherwise the
/// intersection of the registered interests with the endpoint's readiness.
/// An endpoint is readable when a read would make progress, and — the model
/// stream never runs out of buffer space — always ready for writing.
pub open spec fn entry_event(v: PairView, fd_a: i32, fd_b: i32, e: FdEntry) -> Option<Event> {
    if e.fd != fd_a && e.fd != fd_b {
        None
    } else {
        let end = if e.fd == fd_a {
            End::A
        } else {
            End::B
        };
        let r = e.interests.spec_readable() && readable_now(v, end);
        let w = e.interests.spec_writable();
        if r || w {
            Some(Event { token: e.token, readable: r, writable: w })
        } else {
            None
        }
    }
}

/// The events a poll call reports for the registrations in `table`, in
/// table order.
pub open spec fn events_of_table(v: PairView, fd_a: i32, fd_b: i32, table: Seq<FdEntry>) -> Seq<
    Event,
>
    decreases table.len(),
{
    if table.len() == 0 {
        Seq::empty()
    } else {
        events_of_table(v, fd_a, fd_b, table.drop_last()) + match entry_event(
            v,
            fd_a,
            fd_b,
            table.last(),
        ) {
            Some(ev) => seq![ev],
            None => Seq::empty(),
        }
    }
}

/// The synthetic event a pending wake adds: a readable event on the waker's
/// token.
pub open spec fn wake_events(waker_token: Option<Token>, wake_pending: bool) -> Seq<Event> {
    match waker_token {
        Some(t) => if wake_pending {
            seq![Event { token: t, readable: true, writable: false }]
        } else {
            Seq::empty()
        },
        None => Seq::empty(),
    }
}

/// Ghost state of a reactor polling one connected stream pair.
pub struct WorldView {
    /// The reactor's registration table.
    pub table: Seq<FdEntry>,
    /// The reactor's identity.
    pub reactor_id: u64,
    /// The connected pair.
    pub pair: PairView,
    /// The descriptors of the two endpoints.
    pub fd_a: i32,
    pub fd_b: i32,
    /// The token the wake handle is bound to, once one was made.
    pub waker_token: Option<Token>,
    /// A wake has been fired and not yet observed by a poll call.
    pub wake_pending: bool,
}

/// Everything a poll call reports: one event per ready registration, in
/// table order, then the wake event if a wake is pending. All events
/// reflect state as of this poll call.
pub open spec fn spec_poll_events(w: WorldView) -> Seq<Event> {
    events_of_table(w.pair, w.fd_a, w.fd_b, w.table) + wake_events(w.waker_token, w.wake_pending)
}

/// A reactor together with one connected stream pair and an optional wake
/// handle: the whole world the multiplexing loop observes. Registration
/// goes through the reactor's descriptor table; readiness is derived from
/// the pair's state; a wake is a synthetic readiness event on the waker's
/// token, never lost — it stays pending until a poll call observes it.
pub struct PollWorld {
    registry: Registry,
    pair: StreamPair,
    fd_a: i32,
    fd_b: i32,
    waker_token: Option<Token>,
    wake_pending: bool,
}

impl PollWorld {
    pub closed spec fn view(self) -> WorldView {
        WorldView {
            table: self.registry.table(),
            reactor_id: self.registry.spec_id(),
            pair: self.pair.view(),
            fd_a: self.fd_a,
            fd_b: self.fd_b,
            waker_token: self.waker_token,
            wake_pending: self.wake_pending,
        }
    }

    /// Well-formed: the registry tracks each descriptor at most once, the
    /// pair's directions satisfy the stream invariant, and the two
    /// endpoints have distinct descriptors.
    pub closed spec fn wf(self) -> bool {
        &&& self.registry.wf()
        &&& self.pair.wf()
        &&& self.fd_a != self.fd_b
    }

    /// The descriptor of an endpoint.
    pub open spec fn spec_fd(self, end: End) -> i32 {
        if end is A {
            self.view().fd_a
        } else {
            self.view().fd_b
        }
    }

    /// A fresh world: a reactor with identity `reactor_id` and an empty
    /// table, a newly connected pair on descriptors `fd_a` and `fd_b`, no
    /// wake handle.
    pub fn new(reactor_id: u64, fd_a: i32, fd_b: i32) -> (r: PollWorld)
        requires
            fd_a != fd_b,
        ensures
            r.wf(),
            r.view().table.len() == 0,
            r.view().reactor_id == reactor_id,
            r.view().fd_a == fd_a,
            r.view().fd_b == fd_b,
            r.view().waker_token is None,
            !r.view().wake_pending,
            incoming(r.view().pair, End::A).pending.len() == 0,
            incoming(r.view().pair, End::B).pending.len() == 0,
            !outgoing(r.view().pair, End::A).wr_shut,
            !outgoing(r.view().pair, End::B).wr_shut,
            !incoming(r.view().pair, End::A).rd_shut,
            !incoming(r.view().pair, End::B).rd_shut,
    {
        PollWorld {
            registry: Registry::new(reactor_id),
            pair: StreamPair::pair(),
            fd_a,
            fd_b,
            waker_token: None,
            wake_pending: false,
        }
    }

    /// Registers an endpoint with the reactor under `token` and
    /// `interests`, by way of the borrowed-descriptor adapter. Succeeds
    /// exactly when the endpoint's descriptor is not already tracked.
    pub fn register(&mut self, end: End, token: Token, interests: Interest) -> (r: Result<
        (),
        RegError,
    >)
        requires
            old(self).wf(),
        ensures
            final(self).wf(),
            r is Ok <==> !table_has_fd(old(self).view().table, old(self).spec_fd(end)),
            match r {
                Ok(()) => final(self).view() == (WorldView {
                    table: old(self).view().table.push(
                        FdEntry { fd: old(self).spec_fd(end), token, interests },
                    ),
                    ..old(self).view()
                }),
                Err(e) => {
                    &&& e == RegError::AlreadyRegistered
                    &&& final(self).view() == old(self).view()
                },
            },
    {
        let fd = match end {
            End::A => self.fd_a,
            End::B => self.fd_b,
        };
        let mut source = crate::sourcefd::SourceFd(&fd);
        source.register(&mut self.registry, token, interests)
    }

    /// Changes the token or interests an endpoint is registered under.
    /// Succeeds exactly when the endpoint's descriptor is tracked.
    pub fn reregister(&mut self, end: End, token: Token, interests: Interest) -> (r: Result<
        (),
        RegError,
    >)
        requires
            old(self).wf(),
        ensures
            final(self).wf(),
            r is Ok <==> table_has_fd(old(self).view().table, old(self).spec_fd(end)),
            match r {
                Ok(()) => final(self).view() == (WorldView {
                    table: old(self).view().table.update(
                        old(self).spec_registry().index_of(old(self).spec_fd(end)),
                        FdEntry { fd: old(self).spec_fd(end), token, interests },
                    ),
                    ..old(self).view()
                }),
                Err(e) => {
                    &&& e == RegError::NotRegistered
                    &&& final(self).view() == old(self).view()
                },
            },
    {
        let fd = match end {
            End::A => self.fd_a,
            End::B => self.fd_b,
        };
        let mut source = crate::sourcefd::SourceFd(&fd);
        source.reregister(&mut self.registry, token, interests)
    }

    /// Removes an endpoint from the reactor: no further events for its
    /// token. Succeeds exactly when the endpoint's descriptor is tracked.
    pub fn deregister(&mut self, end: End) -> (r: Result<(), RegError>)
        requires
            old(self).wf(),
        ensures
            final(self).wf(),
            r is Ok <==> table_has_fd(old(self).view().table, old(self).spec_fd(end)),
            match r {
                Ok(()) => {
                    &&& final(self).view() == (WorldView {
                        table: old(self).view().table.remove(
                            old(self).spec_registry().index_of(old(self).spec_fd(end)),
                        ),
                        ..old(self).view()
                    })
                    &&& !table_has_fd(final(self).view().table, old(self).spec_fd(end))
                },
                Err(e) => {
                    &&& e == RegError::NotRegistered
                    &&& final(self).view() == old(self).view()
                },
            },
    {
        let fd = match end {
            End::A => self.fd_a,
            End::B => self.fd_b,
        };
        let mut source = crate::sourcefd::SourceFd(&fd);
        source.deregister(&mut self.registry)
    }

    /// The registry, for stating where a descriptor stands in the table.
    pub closed spec fn spec_registry(self) -> Registry {
        self.registry
    }

    /// Writes `data` at an endpoint.
    pub fn write(&mut self, end: End, data: &[u8]) -> (r: Result<usize, StreamError>)
        requires
            old(self).wf(),
        ensures
            final(self).wf(),
            (outgoing(final(self).view().pair, end), r) == spec_write(
                outgoing(old(self).view().pair, end),
                data@,
            ),
            incoming(final(self).view().pair, end) == incoming(old(self).view().pair, end),
            final(self).view() == (WorldView { pair: final(self).view().pair, ..old(self).view() }),
    {
        self.pair.write(end, data)
    }

    /// Reads up to `max` bytes at an endpoint.
    pub fn read(&mut self, end: End, max: usize) -> (r: ReadOutcome)
        requires
            old(self).wf(),
        ensures
            final(self).wf(),
            (incoming(final(self).view().pair, end), read_view_of(r)) == spec_read(
                incoming(old(self).view().pair, end),
                max as nat,
            ),
            outgoing(final(self).view().pair, end) == outgoing(old(self).view().pair, end),
            final(self).view() == (WorldView { pair: final(self).view().pair, ..old(self).view() }),
    {
        self.pair.read(end, max)
    }

    /// Shuts down halves of the connection as seen from `end`.
    pub fn shutdown(&mut self, end: End, how: ShutdownHow)
        requires
            old(self).wf(),
        ensures
            final(self).wf(),
            outgoing(final(self).view().pair, end) == (crate::stream::ChannelView {
                wr_shut: (how is Write || how is Both) || outgoing(
                    old(self).view().pair,
                    end,
                ).wr_shut,
                ..outgoing(old(self).view().pair, end)
            }),
            incoming(final(self).view().pair, end) == (crate::stream::ChannelView {
                rd_shut: (how is Read || how is Both) || incoming(
                    old(self).view().pair,
                    end,
                ).rd_shut,
                ..incoming(old(self).view().pair, end)
            }),
            final(self).view() == (WorldView { pair: final(self).view().pair, ..old(self).view() }),
    {
        self.pair.shutdown(end, how)
    }

    /// Makes the cross-thread wake handle, bound to `token`: from now on a
    /// wake is observed as a readable event on that token.
    pub fn waker_new(&mut self, token: Token)
        requires
            old(self).wf(),
        ensures
            final(self).wf(),
            final(self).view() == (WorldView {
                waker_token: Some(token),
                ..old(self).view()
            }),
    {
        self.waker_token = Some(token);
    }

    /// Fires the wake handle: enqueues a synthetic readiness event for the
    /// waker's token. Safe to invoke at any time; the wake stays pending
    /// until a poll call observes it, so no wakeup is lost.
    pub fn wake(&mut self)
        requires
            old(self).wf(),
            old(self).view().waker_token is Some,
        ensures
            final(self).wf(),
            final(self).view() == (WorldView { wake_pending: true, ..old(self).view() }),
    {
        self.wake_pending = true;
    }

    /// One poll call: reports one event per ready registration, in table
    /// order, then the wake event if a wake was pending — and consumes the
    /// pending wake. Nothing else changes; the events reflect state as of
    /// this call.
    pub fn poll(&mut self) -> (events: Vec<Event>)
        requires
            old(self).wf(),
        ensures
            final(self).wf(),
            events@ == spec_poll_events(old(self).view()),
            final(self).view() == (WorldView { wake_pending: false, ..old(self).view() }),
    {
        let mut events: Vec<Event> = Vec::new();
        let n = self.registry.table_len();
        let ghost table = self.registry.table();
        let mut i: usize = 0;
        while i < n
            invariant
                0 <= i <= n,
                self == old(self),
                self.wf(),
                n == table.len(),
                table == self.registry.table(),
                events@ == events_of_table(
                    self.view().pair,
                    self.view().fd_a,
                    self.view().fd_b,
                    table.take(i as int),
                ),
            decreases n - i,
        {
            let e = self.registry.entry_at(i);
            let is_a = e.fd == self.fd_a;
            let is_b = e.fd == self.fd_b;
            if is_a || is_b {
                let end = if is_a {
                    End::A
                } else {
                    End::B
                };
                let r = e.interests.is_readable() && self.pair.is_readable_now(end);
                let w = e.interests.is_writable();
                if r || w {
                    events.push(Event { token: e.token, readable: r, writable: w });
                }
            }
            proof {
                assert(table.take(i + 1).drop_last() =~= table.take(i as int));
                assert(table.take(i + 1).last() == table[i as int]);
            }
            i = i + 1;
        }
        proof {
            assert(table.take(n as int) =~= table);
        }
        match self.waker_token {
            Some(t) => {
                if self.wake_pending {
                    events.push(Event { token: t, readable: true, writable: false });
                }
            },
            None => {},
        }
        self.wake_pending = false;
        events
    }
}

} // verus!
