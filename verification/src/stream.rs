use vstd::prelude::*;

verus! {

/// Which endpoint of a connected pair an operation acts on.
#[derive(Clone, Copy, PartialEq, Eq, Structural, Debug)]
pub enum End {
    A,
    B,
}

/// Which half of a connection a shutdown closes.
#[derive(Clone, Copy, PartialEq, Eq, Structural, Debug)]
pub enum ShutdownHow {
    Read,
    Write,
    Both,
}

/// The one stream error the model produces: writing into a direction whose
/// writing half was shut down, or whose reader has shut down reading.
#[derive(Clone, Copy, PartialEq, Eq, Structural, Debug)]
pub enum StreamError {
    BrokenPipe,
}

/// What a byte-stream read reports.
#[derive(PartialEq, Eq, Debug)]
pub enum ReadOutcome {
    /// Bytes received, in order; empty only when the caller asked for zero.
    Bytes(Vec<u8>),
    /// Length zero: end-of-stream. Not an error — the peer has shut down
    /// writing (or this end has shut down reading) and nothing is pending.
    Eof,
    /// Nothing is pending yet; try again after the next readiness event.
    WouldBlock,
}

/// What a vectored read reports: one buffer per requested capacity, filled
/// in order — or the same end-of-stream and would-block outcomes a plain
/// read reports.
#[derive(PartialEq, Eq, Debug)]
pub enum VectoredOutcome {
    Buffers(Vec<Vec<u8>>),
    Eof,
    WouldBlock,
}

/// Ghost abstraction of a read outcome.
pub enum ReadView {
    Bytes(Seq<u8>),
    Eof,
    WouldBlock,
}

/// The ghost abstraction of `ReadOutcome`.
pub open spec fn read_view_of(r: ReadOutcome) -> ReadView {
    match r {
        ReadOutcome::Bytes(bs) => ReadView::Bytes(bs@),
        ReadOutcome::Eof => ReadView::Eof,
        ReadOutcome::WouldBlock => ReadView::WouldBlock,
    }
}

/// Ghost state of one direction of a connected byte stream: the bytes still
/// in flight, the full histories of what the writer sent and the reader
/// received, and the two shutdown flags.
pub struct ChannelView {
    /// Bytes written but not yet read, oldest first.
    pub pending: Seq<u8>,
    /// Everything the writing end ever wrote into this direction.
    pub sent: Seq<u8>,
    /// Everything the reading end ever read out of this direction.
    pub recv: Seq<u8>,
    /// The writing end has shut down writing.
    pub wr_shut: bool,
    /// The reading end has shut down reading.
    pub rd_shut: bool,
}

/// The stream invariant, and the round-trip property itself: what was
/// received, followed by what is still in flight, is exactly what was sent —
/// byte for byte, in order.
pub open spec fn channel_wf(v: ChannelView) -> bool {
    v.recv + v.pending == v.sent
}

/// What a read of up to `max` bytes does to one direction: bytes are taken
/// from the front of `pending` and appended to the receive history; with
/// nothing pending the outcome is end-of-stream when the writer has shut
/// down (or the reader stopped reading), and would-block otherwise.
pub open spec fn spec_read(v: ChannelView, max: nat) -> (ChannelView, ReadView) {
    if v.rd_shut {
        (v, ReadView::Eof)
    } else if v.pending.len() > 0 {
        let k = if max <= v.pending.len() {
            max as int
        } else {
            v.pending.len() as int
        };
        let taken = v.pending.take(k);
        (
            ChannelView { pending: v.pending.skip(k), recv: v.recv + taken, ..v },
            ReadView::Bytes(taken),
        )
    } else if v.wr_shut {
        (v, ReadView::Eof)
    } else {
        (v, ReadView::WouldBlock)
    }
}

/// What a write of `data` does to one direction: refused once the direction
/// is closed at either side, otherwise every byte is appended to `pending`
/// and to the send history and the count is reported.
pub open spec fn spec_write(v: ChannelView, data: Seq<u8>) -> (ChannelView, Result<
    usize,
    StreamError,
>) {
    if v.wr_shut || v.rd_shut {
        (v, Err(StreamError::BrokenPipe))
    } else {
        (
            ChannelView { pending: v.pending + data, sent: v.sent + data, ..v },
            Ok(data.len() as usize),
        )
    }
}

/// The concatenation of a sequence of buffers, in order: what a vectored
/// write sends, and how a vectored read's result is laid out.
pub open spec fn concat_all(bufs: Seq<Seq<u8>>) -> Seq<u8>
    decreases bufs.len(),
{
    if bufs.len() == 0 {
        Seq::empty()
    } else {
        concat_all(bufs.drop_last()) + bufs.last()
    }
}

/// The combined capacity of a vectored read's buffers.
pub open spec fn sum_of(sizes: Seq<usize>) -> nat
    decreases sizes.len(),
{
    if sizes.len() == 0 {
        0
    } else {
        sum_of(sizes.drop_last()) + sizes.last() as nat
    }
}

/// A prefix never sums to more than the whole.
pub proof fn lemma_sum_of_take_bound(sizes: Seq<usize>, i: int)
    requires
        0 <= i <= sizes.len(),
    ensures
        sum_of(sizes.take(i)) <= sum_of(sizes),
    decreases sizes.len() - i,
{
    if i < sizes.len() {
        lemma_sum_of_take_bound(sizes, i + 1);
        assert(sizes.take(i + 1).drop_last() =~= sizes.take(i));
        assert(sizes.take(i + 1).last() == sizes[i]);
    } else {
        assert(sizes.take(i) =~= sizes);
    }
}

/// `data` split over buffers of capacities `sizes[i..]`, starting at
/// position `start`: each buffer takes as much as fits, in order, until the
/// data runs out.
pub open spec fn split_from(data: Seq<u8>, sizes: Seq<usize>, i: int, start: int) -> Seq<Seq<u8>>
    decreases sizes.len() - i,
{
    if i < 0 || i >= sizes.len() || start < 0 || start > data.len() {
        Seq::empty()
    } else {
        let k = if sizes[i] <= data.len() - start {
            sizes[i] as int
        } else {
            data.len() - start
        };
        seq![data.subrange(start, start + k)] + split_from(data, sizes, i + 1, start + k)
    }
}

/// Law: a read that reports would-block consumes and produces nothing — the
/// direction is exactly as it was — so any number of would-block reads can
/// come between two calls without changing anything, and one successful call
/// after the next readiness event makes the same forward progress a single
/// successful call would have made.
pub proof fn lemma_would_block_consumes_nothing(v: ChannelView, max: nat, max2: nat)
    ensures
        spec_read(v, max).1 is WouldBlock ==> spec_read(v, max).0 == v,
        spec_read(v, max).1 is WouldBlock ==> spec_read(spec_read(v, max).0, max2) == spec_read(
            v,
            max2,
        ),
{
}

/// The bytes obtained by reading one direction over and over, in chunks of
/// up to `chunk` bytes, until nothing more is pending. Each read consumes at
/// least one byte, so the drain ends after finitely many calls.
pub open spec fn drain_reads(v: ChannelView, chunk: nat) -> Seq<u8>
    decreases v.pending.len(),
{
    if v.rd_shut || v.pending.len() == 0 || chunk < 1 {
        Seq::empty()
    } else {
        let (v1, o) = spec_read(v, chunk);
        match o {
            ReadView::Bytes(bs) => bs + drain_reads(v1, chunk),
            ReadView::Eof => Seq::empty(),
            ReadView::WouldBlock => Seq::empty(),
        }
    }
}

/// Draining an open reading end yields exactly the bytes in flight, in
/// order.
pub proof fn lemma_drain_yields_pending(v: ChannelView, chunk: nat)
    requires
        chunk >= 1,
        !v.rd_shut,
    ensures
        drain_reads(v, chunk) == v.pending,
    decreases v.pending.len(),
{
    if v.pending.len() == 0 {
        assert(drain_reads(v, chunk) =~= v.pending);
    } else {
        let (v1, o) = spec_read(v, chunk);
        let k = if chunk <= v.pending.len() {
            chunk as int
        } else {
            v.pending.len() as int
        };
        lemma_drain_yields_pending(v1, chunk);
        assert(v.pending.take(k) + v.pending.skip(k) =~= v.pending);
    }
}

/// Round-trip law: writing `data` into an open direction reports the full
/// count, and draining the other end by reads of any chunk size then
/// returns every byte that was already in flight, followed by `data` —
/// byte for byte, in order — in finitely many reads.
pub proof fn lemma_round_trip(v: ChannelView, data: Seq<u8>, chunk: nat)
    requires
        channel_wf(v),
        !v.wr_shut,
        !v.rd_shut,
        chunk >= 1,
    ensures
        ({
            let (v1, r) = spec_write(v, data);
            &&& r == Ok::<usize, StreamError>(data.len() as usize)
            &&& drain_reads(v1, chunk) == v.pending + data
            &&& channel_wf(v1)
        }),
{
    let (v1, r) = spec_write(v, data);
    lemma_drain_yields_pending(v1, chunk);
    assert(v1.recv + v1.pending =~= v1.sent);
}

/// Boundary law: a read on a direction whose writer has shut down, with
/// nothing left in flight, reports end-of-stream — a length of zero, not an
/// error — and changes nothing.
pub proof fn lemma_eof_on_peer_shutdown(v: ChannelView, max: nat)
    requires
        v.pending.len() == 0,
        v.wr_shut,
    ensures
        spec_read(v, max).1 is Eof,
        spec_read(v, max).0 == v,
{
}

/// One direction of a connected byte-stream pair, with the bytes in flight
/// held in a buffer consumed from the front.
struct Channel {
    buf: Vec<u8>,
    pos: usize,
    wr_shut: bool,
    rd_shut: bool,
    sent: Ghost<Seq<u8>>,
    recv: Ghost<Seq<u8>>,
}

impl Channel {
    spec fn view(self) -> ChannelView {
        ChannelView {
            pending: self.buf@.skip(self.pos as int),
            sent: self.sent@,
            recv: self.recv@,
            wr_shut: self.wr_shut,
            rd_shut: self.rd_shut,
        }
    }

    spec fn inv(self) -> bool {
        &&& self.pos <= self.buf.len()
        &&& channel_wf(self.view())
    }

    fn new() -> (r: Channel)
        ensures
            r.inv(),
            r.view() == (ChannelView {
                pending: Seq::<u8>::empty(),
                sent: Seq::<u8>::empty(),
                recv: Seq::<u8>::empty(),
                wr_shut: false,
                rd_shut: false,
            }),
    {
        let r = Channel {
            buf: Vec::new(),
            pos: 0,
            wr_shut: false,
            rd_shut: false,
            sent: Ghost(Seq::empty()),
            recv: Ghost(Seq::empty()),
        };
        proof {
            assert(r.view().pending =~= Seq::<u8>::empty());
            assert(r.view().recv + r.view().pending =~= r.view().sent);
        }
        r
    }

    fn write(&mut self, data: &[u8]) -> (r: Result<usize, StreamError>)
        requires
            old(self).inv(),
        ensures
            final(self).inv(),
            (final(self).view(), r) == spec_write(old(self).view(), data@),
    {
        if self.wr_shut || self.rd_shut {
            return Err(StreamError::BrokenPipe);
        }
        self.buf.extend_from_slice(data);
        proof {
            self.sent@ = self.sent@ + data@;
            assert(self.view().pending =~= old(self).view().pending + data@);
            assert(self.view().recv + self.view().pending =~= self.view().sent);
        }
        Ok(data.len())
    }

    fn read(&mut self, max: usize) -> (r: ReadOutcome)
        requires
            old(self).inv(),
        ensures
            final(self).inv(),
            (final(self).view(), read_view_of(r)) == spec_read(old(self).view(), max as nat),
    {
        if self.rd_shut {
            return ReadOutcome::Eof;
        }
        let avail = self.buf.len() - self.pos;
        if avail == 0 {
            if self.wr_shut {
                return ReadOutcome::Eof;
            }
            return ReadOutcome::WouldBlock;
        }
        let k = if max <= avail {
            max
        } else {
            avail
        };
        let mut out: Vec<u8> = Vec::new();
        let mut j: usize = 0;
        while j < k
            invariant
                0 <= j <= k,
                k <= avail,
                avail == self.buf.len() - self.pos,
                self.pos <= self.buf.len(),
                out@ == self.buf@.skip(self.pos as int).take(j as int),
            decreases k - j,
        {
            let b = self.buf[self.pos + j];
            out.push(b);
            j = j + 1;
        }
        self.pos = self.pos + k;
        proof {
            let pend0 = old(self).view().pending;
            let taken = pend0.take(k as int);
            self.recv@ = self.recv@ + taken;
            assert(out@ == taken);
            assert(self.view().pending =~= pend0.skip(k as int));
            assert(taken + pend0.skip(k as int) =~= pend0);
            assert(self.view().recv + self.view().pending =~= self.view().sent);
        }
        ReadOutcome::Bytes(out)
    }

    fn shut_write(&mut self)
        requires
            old(self).inv(),
        ensures
            final(self).inv(),
            final(self).view() == (ChannelView { wr_shut: true, ..old(self).view() }),
    {
        self.wr_shut = true;
    }

    fn shut_read(&mut self)
        requires
            old(self).inv(),
        ensures
            final(self).inv(),
            final(self).view() == (ChannelView { rd_shut: true, ..old(self).view() }),
    {
        self.rd_shut = true;
    }
}

/// Ghost state of a connected stream pair: one channel per direction.
pub struct PairView {
    /// The direction written at end A and read at end B.
    pub ab: ChannelView,
    /// The direction written at end B and read at end A.
    pub ba: ChannelView,
}

/// The direction that `end` reads from.
pub open spec fn incoming(v: PairView, end: End) -> ChannelView {
    if end is A {
        v.ba
    } else {
        v.ab
    }
}

/// The direction that `end` writes into.
pub open spec fn outgoing(v: PairView, end: End) -> ChannelView {
    if end is A {
        v.ab
    } else {
        v.ba
    }
}

/// Whether a read at `end` would make progress now: bytes are pending, or
/// end-of-stream is observable.
pub open spec fn readable_now(v: PairView, end: End) -> bool {
    incoming(v, end).pending.len() > 0 || incoming(v, end).wr_shut || incoming(v, end).rd_shut
}

/// A connected pair of byte streams: what two endpoints of a stream socket
/// pair share. Data written at one end, in chunks of any size, comes out of
/// the other end byte for byte, in order. Reads and writes are non-blocking:
/// a read with nothing pending reports would-block, never waits.
pub struct StreamPair {
    ab: Channel,
    ba: Channel,
}

impl StreamPair {
    pub closed spec fn view(self) -> PairView {
        PairView { ab: self.ab.view(), ba: self.ba.view() }
    }

    /// Well-formed: both directions satisfy the stream invariant.
    pub closed spec fn wf(self) -> bool {
        self.ab.inv() && self.ba.inv()
    }

    /// In a well-formed pair, both directions satisfy `channel_wf`: the
    /// round-trip equation holds of each.
    pub proof fn lemma_wf_channels(self)
        requires
            self.wf(),
        ensures
            channel_wf(self.view().ab),
            channel_wf(self.view().ba),
    {
    }

    /// Creates an unnamed pair of connected streams, both directions open
    /// and empty.
    pub fn pair() -> (r: StreamPair)
        ensures
            r.wf(),
            r.view().ab == (ChannelView {
                pending: Seq::<u8>::empty(),
                sent: Seq::<u8>::empty(),
                recv: Seq::<u8>::empty(),
                wr_shut: false,
                rd_shut: false,
            }),
            r.view().ba == r.view().ab,
    {
        StreamPair { ab: Channel::new(), ba: Channel::new() }
    }

    /// Writes `data` at `end`: appended to the outgoing direction, refused
    /// once that direction is closed at either side.
    pub fn write(&mut self, end: End, data: &[u8]) -> (r: Result<usize, StreamError>)
        requires
            old(self).wf(),
        ensures
            final(self).wf(),
            (outgoing(final(self).view(), end), r) == spec_write(
                outgoing(old(self).view(), end),
                data@,
            ),
            incoming(final(self).view(), end) == incoming(old(self).view(), end),
    {
        match end {
            End::A => self.ab.write(data),
            End::B => self.ba.write(data),
        }
    }

    /// Reads up to `max` bytes at `end` from the incoming direction.
    pub fn read(&mut self, end: End, max: usize) -> (r: ReadOutcome)
        requires
            old(self).wf(),
        ensures
            final(self).wf(),
            (incoming(final(self).view(), end), read_view_of(r)) == spec_read(
                incoming(old(self).view(), end),
                max as nat,
            ),
            outgoing(final(self).view(), end) == outgoing(old(self).view(), end),
    {
        match end {
            End::A => self.ba.read(max),
            End::B => self.ab.read(max),
        }
    }

    /// Vectored write at `end`: sends the buffers' contents in order, as
    /// one write of their concatenation.
    pub fn write_vectored(&mut self, end: End, bufs: &Vec<Vec<u8>>) -> (r: Result<
        usize,
        StreamError,
    >)
        requires
            old(self).wf(),
        ensures
            final(self).wf(),
            (outgoing(final(self).view(), end), r) == spec_write(
                outgoing(old(self).view(), end),
                concat_all(bufs@.map_values(|b: Vec<u8>| b@)),
            ),
            incoming(final(self).view(), end) == incoming(old(self).view(), end),
    {
        let ghost views = bufs@.map_values(|b: Vec<u8>| b@);
        let mut joined: Vec<u8> = Vec::new();
        let n = bufs.len();
        let mut i: usize = 0;
        while i < n
            invariant
                0 <= i <= n,
                n == bufs@.len(),
                views == bufs@.map_values(|b: Vec<u8>| b@),
                joined@ == concat_all(views.take(i as int)),
            decreases n - i,
        {
            joined.extend_from_slice(bufs[i].as_slice());
            proof {
                assert(views.take(i + 1).drop_last() =~= views.take(i as int));
                assert(views.take(i + 1).last() == views[i as int]);
                assert(views[i as int] == bufs@[i as int]@);
            }
            i = i + 1;
        }
        proof {
            assert(views.take(n as int) =~= views);
        }
        self.write(end, joined.as_slice())
    }

    /// Vectored read at `end`: one read of the combined capacity of buffers
    /// of the given sizes, the bytes landing in the buffers in order, each
    /// buffer taking as much as fits.
    pub fn read_vectored(&mut self, end: End, sizes: &Vec<usize>) -> (r: VectoredOutcome)
        requires
            old(self).wf(),
            sum_of(sizes@) <= usize::MAX,
        ensures
            final(self).wf(),
            outgoing(final(self).view(), end) == outgoing(old(self).view(), end),
            ({
                let (v1, o) = spec_read(incoming(old(self).view(), end), sum_of(sizes@));
                &&& incoming(final(self).view(), end) == v1
                &&& match r {
                    VectoredOutcome::Buffers(bs) => {
                        &&& o matches ReadView::Bytes(flat) && bs@.map_values(|b: Vec<u8>| b@)
                            == split_from(flat, sizes@, 0, 0)
                    },
                    VectoredOutcome::Eof => o is Eof,
                    VectoredOutcome::WouldBlock => o is WouldBlock,
                }
            }),
    {
        let mut total: usize = 0;
        let n = sizes.len();
        let mut i: usize = 0;
        while i < n
            invariant
                0 <= i <= n,
                n == sizes@.len(),
                total == sum_of(sizes@.take(i as int)),
                sum_of(sizes@) <= usize::MAX,
            decreases n - i,
        {
            proof {
                assert(sizes@.take(i + 1).drop_last() =~= sizes@.take(i as int));
                assert(sizes@.take(i + 1).last() == sizes@[i as int]);
                lemma_sum_of_take_bound(sizes@, i + 1);
            }
            total = total + sizes[i];
            i = i + 1;
        }
        proof {
            assert(sizes@.take(n as int) =~= sizes@);
        }
        match self.read(end, total) {
            ReadOutcome::Eof => VectoredOutcome::Eof,
            ReadOutcome::WouldBlock => VectoredOutcome::WouldBlock,
            ReadOutcome::Bytes(flat) => {
                let mut out: Vec<Vec<u8>> = Vec::new();
                let ghost done = Seq::<Seq<u8>>::empty();
                let mut start: usize = 0;
                let mut i: usize = 0;
                while i < n
                    invariant
                        0 <= i <= n,
                        n == sizes@.len(),
                        start <= flat@.len(),
                        out@.map_values(|b: Vec<u8>| b@) == done,
                        split_from(flat@, sizes@, 0, 0) == done + split_from(
                            flat@,
                            sizes@,
                            i as int,
                            start as int,
                        ),
                    decreases n - i,
                {
                    let flen = flat.len();
                    let k = if sizes[i] <= flen - start {
                        sizes[i]
                    } else {
                        flen - start
                    };
                    let mut piece: Vec<u8> = Vec::new();
                    let mut j: usize = 0;
                    while j < k
                        invariant
                            0 <= j <= k,
                            flen == flat@.len(),
                            start + k <= flen,
                            piece@ == flat@.subrange(start as int, start as int + j as int),
                        decreases k - j,
                    {
                        let b = flat[start + j];
                        piece.push(b);
                        j = j + 1;
                    }
                    proof {
                        done = done.push(piece@);
                        assert forall|m: int| 0 <= m < out@.len() + 1 implies (
                        out@.push(piece).map_values(|b: Vec<u8>| b@))[m] == done[m] by {
                            if m < out@.len() {
                                assert((out@.map_values(|b: Vec<u8>| b@))[m] == out@[m]@);
                            }
                        }
                        assert(out@.push(piece).map_values(|b: Vec<u8>| b@) =~= done);
                    }
                    out.push(piece);
                    start = start + k;
                    i = i + 1;
                }
                proof {
                    assert(split_from(flat@, sizes@, n as int, start as int) =~= Seq::<
                        Seq<u8>,
                    >::empty());
                    assert(split_from(flat@, sizes@, 0, 0) =~= done);
                }
                VectoredOutcome::Buffers(out)
            },
        }
    }

    /// Shuts down the read half, the write half, or both halves of the
    /// connection as seen from `end`.
    pub fn shutdown(&mut self, end: End, how: ShutdownHow)
        requires
            old(self).wf(),
        ensures
            final(self).wf(),
            outgoing(final(self).view(), end) == (ChannelView {
                wr_shut: (how is Write || how is Both) || outgoing(old(self).view(), end).wr_shut,
                ..outgoing(old(self).view(), end)
            }),
            incoming(final(self).view(), end) == (ChannelView {
                rd_shut: (how is Read || how is Both) || incoming(old(self).view(), end).rd_shut,
                ..incoming(old(self).view(), end)
            }),
    {
        let close_rd = match how {
            ShutdownHow::Read => true,
            ShutdownHow::Write => false,
            ShutdownHow::Both => true,
        };
        let close_wr = match how {
            ShutdownHow::Read => false,
            ShutdownHow::Write => true,
            ShutdownHow::Both => true,
        };
        match end {
            End::A => {
                if close_wr {
                    self.ab.shut_write();
                }
                if close_rd {
                    self.ba.shut_read();
                }
            },
            End::B => {
                if close_wr {
                    self.ba.shut_write();
                }
                if close_rd {
                    self.ab.shut_read();
                }
            },
        }
    }

    /// Whether a read at `end` would make progress now; this is the
    /// readable readiness the reactor reports for the endpoint.
    pub fn is_readable_now(&self, end: End) -> (r: bool)
        requires
            self.wf(),
        ensures
            r == readable_now(self.view(), end),
    {
        let ch_rd_shut = match end {
            End::A => self.ba.rd_shut,
            End::B => self.ab.rd_shut,
        };
        let ch_wr_shut = match end {
            End::A => self.ba.wr_shut,
            End::B => self.ab.wr_shut,
        };
        let has_pending = match end {
            End::A => self.ba.pos < self.ba.buf.len(),
            End::B => self.ab.pos < self.ab.buf.len(),
        };
        has_pending || ch_wr_shut || ch_rd_shut
    }
}

} // verus!
