use vstd::prelude::*;

verus! {

/// A single-shot timer command: a sequence id and an absolute deadline (in
/// ticks of the model clock). Produced by the controlling loop once per
/// iteration; consumed by the coordinator exactly once, in send order.
#[derive(Clone, Copy, PartialEq, Eq, Structural, Debug)]
pub struct TimerCmd {
    pub id: u64,
    pub deadline: u64,
}

/// Ghost state of the timeout-coordination protocol.
pub struct TimerView {
    /// The shared sequence counter: the id of the most recently issued
    /// command. Read at fire time to decide whether a command is current.
    pub current_id: u64,
    /// Commands sent but not yet consumed, in send order.
    pub queue: Seq<TimerCmd>,
    /// The model clock.
    pub now: u64,
    /// The times at which a wake was fired, in order.
    pub wakes: Seq<u64>,
}

/// What one coordinator iteration does: receive the oldest command, sleep
/// until its deadline, then fire a wake exactly when the command's id still
/// equals the shared counter — otherwise the command was superseded and
/// nothing happens.
pub open spec fn spec_step(v: TimerView) -> TimerView
    recommends
        v.queue.len() > 0,
{
    let cmd = v.queue[0];
    let woke_at = if cmd.deadline > v.now {
        cmd.deadline
    } else {
        v.now
    };
    TimerView {
        current_id: v.current_id,
        queue: v.queue.skip(1),
        now: woke_at,
        wakes: if cmd.id == v.current_id {
            v.wakes.push(woke_at)
        } else {
            v.wakes
        },
    }
}

/// The ids among `queue` that would fire against the shared counter value
/// `current`: a command fires exactly when its id equals the counter.
pub open spec fn fired_ids(queue: Seq<TimerCmd>, current: u64) -> Seq<u64>
    decreases queue.len(),
{
    if queue.len() == 0 {
        Seq::empty()
    } else {
        let head = if queue[0].id == current {
            seq![queue[0].id]
        } else {
            Seq::<u64>::empty()
        };
        head + fired_ids(queue.skip(1), current)
    }
}

/// Coalescing law: when commands were issued with strictly increasing ids —
/// each newer command superseding the older — and the shared counter holds
/// the id of the last one, then running the coordinator over the whole
/// queue fires exactly one wake, the one for the last command. With a
/// single outstanding command this says the command always fires exactly
/// once.
pub proof fn lemma_timer_coalescing(queue: Seq<TimerCmd>, current: u64)
    requires
        queue.len() > 0,
        forall|i: int, j: int| 0 <= i < j < queue.len() ==> queue[i].id < queue[j].id,
        queue.last().id == current,
    ensures
        fired_ids(queue, current) =~= seq![current],
    decreases queue.len(),
{
    if queue.len() == 1 {
        assert(fired_ids(queue.skip(1), current) =~= Seq::<u64>::empty());
    } else {
        assert(queue[0].id < queue.last().id);
        let rest = queue.skip(1);
        assert(rest.last() == queue.last());
        assert forall|i: int, j: int| 0 <= i < j < rest.len() implies rest[i].id < rest[j].id by {
            assert(rest[i] == queue[i + 1]);
            assert(rest[j] == queue[j + 1]);
        }
        lemma_timer_coalescing(rest, current);
    }
}

/// The coordinator run to completion: every outstanding command consumed,
/// in order.
pub open spec fn spec_run(v: TimerView) -> TimerView
    decreases v.queue.len(),
{
    if v.queue.len() == 0 {
        v
    } else {
        spec_run(spec_step(v))
    }
}

/// A full coordinator run fires one wake per command whose id equals the
/// shared counter, and no other.
pub proof fn lemma_run_fires_current_commands(v: TimerView)
    ensures
        spec_run(v).wakes.len() == v.wakes.len() + fired_ids(v.queue, v.current_id).len(),
        spec_run(v).queue.len() == 0,
        spec_run(v).current_id == v.current_id,
    decreases v.queue.len(),
{
    if v.queue.len() > 0 {
        lemma_run_fires_current_commands(spec_step(v));
    }
}

/// Coalescing, seen over a whole coordinator run: with strictly increasing
/// ids of which the last is current, exactly one wake is fired in total.
pub proof fn lemma_coalescing_run(v: TimerView)
    requires
        v.queue.len() > 0,
        forall|i: int, j: int| 0 <= i < j < v.queue.len() ==> v.queue[i].id < v.queue[j].id,
        v.queue.last().id == v.current_id,
    ensures
        spec_run(v).wakes.len() == v.wakes.len() + 1,
{
    lemma_timer_coalescing(v.queue, v.current_id);
    lemma_run_fires_current_commands(v);
}

/// A command whose id no longer equals the shared counter is superseded and
/// never fires: the coordinator takes no action for it.
pub proof fn lemma_superseded_never_fires(v: TimerView)
    requires
        v.queue.len() > 0,
        v.queue[0].id != v.current_id,
    ensures
        spec_step(v).wakes == v.wakes,
{
}

/// The coordinator's fire-time check: a command fires exactly when its id
/// still equals the shared sequence counter; any other value means a newer
/// command superseded it and nothing must happen.
pub fn should_fire(command_id: u64, current_id: u64) -> (r: bool)
    ensures
        r == (command_id == current_id),
{
    command_id == current_id
}

/// The coalescing timer protocol, seen from both threads: the controlling
/// thread issues commands (bumping the shared counter), the coordinator
/// thread consumes them in order, sleeps until each deadline, and fires a
/// wake only for a command that is still current.
///
/// The model serializes the two threads' steps, which makes the counter
/// comparison and the wake one step: the stale wake that a real coordinator
/// can deliver when the counter is bumped between its read and its wake
/// call does not arise here. A driver that wants the same guarantee must
/// make "read the counter, then wake" one mutually exclusive region;
/// otherwise an occasional spurious wake must be accepted and the laws
/// below hold of the serialized order.
pub struct TimerProtocol {
    current_id: u64,
    queue: Vec<TimerCmd>,
    now: u64,
    wakes: Vec<u64>,
}

impl TimerProtocol {
    pub closed spec fn view(self) -> TimerView {
        TimerView {
            current_id: self.current_id,
            queue: self.queue@,
            now: self.now,
            wakes: self.wakes@,
        }
    }

    /// A fresh protocol: counter at zero, nothing outstanding, clock at
    /// zero, no wake fired yet.
    pub fn new() -> (r: TimerProtocol)
        ensures
            r.view() == (TimerView {
                current_id: 0,
                queue: Seq::<TimerCmd>::empty(),
                now: 0,
                wakes: Seq::<u64>::empty(),
            }),
    {
        TimerProtocol { current_id: 0, queue: Vec::new(), now: 0, wakes: Vec::new() }
    }

    /// The controlling thread's step: bump the shared counter and send one
    /// command with the new id and a deadline `wait` ticks from now. The
    /// new command supersedes every command still in the queue.
    pub fn issue(&mut self, wait: u64) -> (c: TimerCmd)
        requires
            old(self).view().current_id < u64::MAX,
            old(self).view().now + wait <= u64::MAX,
        ensures
            c.id == old(self).view().current_id + 1,
            c.deadline == old(self).view().now + wait,
            final(self).view() == (TimerView {
                current_id: c.id,
                queue: old(self).view().queue.push(c),
                ..old(self).view()
            }),
    {
        self.current_id = self.current_id + 1;
        let c = TimerCmd { id: self.current_id, deadline: self.now + wait };
        self.queue.push(c);
        c
    }

    /// The coordinator thread's step: receive the oldest command, sleep
    /// until its deadline, then wake exactly when the command is still
    /// current. Returns whether a wake was fired.
    pub fn coordinator_step(&mut self) -> (fired: bool)
        requires
            old(self).view().queue.len() > 0,
        ensures
            final(self).view() == spec_step(old(self).view()),
            fired == (old(self).view().queue[0].id == old(self).view().current_id),
    {
        let cmd = self.queue.remove(0);
        if cmd.deadline > self.now {
            self.now = cmd.deadline;
        }
        proof {
            assert(self.queue@ =~= old(self).view().queue.skip(1));
        }
        if should_fire(cmd.id, self.current_id) {
            self.wakes.push(self.now);
            true
        } else {
            false
        }
    }

    /// How many commands are still outstanding.
    pub fn queue_len(&self) -> (r: usize)
        ensures
            r == self.view().queue.len(),
    {
        self.queue.len()
    }

    /// The model clock.
    pub fn now_value(&self) -> (r: u64)
        ensures
            r == self.view().now,
    {
        self.now
    }

    /// The shared sequence counter's value.
    pub fn current_id_value(&self) -> (r: u64)
        ensures
            r == self.view().current_id,
    {
        self.current_id
    }

    /// The times at which wakes were fired, in order.
    pub fn wake_times(&self) -> (r: &Vec<u64>)
        ensures
            r@ == self.view().wakes,
    {
        &self.wakes
    }
}

} // verus!
