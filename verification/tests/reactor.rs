use reactor_io::interest::Interest;
use reactor_io::poll::{dispatch, Dispatch, PollWorld};
use reactor_io::registration::RegError;
use reactor_io::stream::{End, ReadOutcome};
use reactor_io::timer::{should_fire, TimerProtocol};
use reactor_io::token::Token;

#[test]
fn readable_pair_end_to_end() {
    // open a connected pair A/B; register A for readable interest under T
    let mut world = PollWorld::new(1, 3, 4);
    assert!(world
        .register(End::A, Token(0), Interest::readable())
        .is_ok());
    // write 5 bytes to B
    assert_eq!(world.write(End::B, b"hello"), Ok(5));
    // poll once: exactly one event, for T, with the readable flag set
    let events = world.poll();
    assert_eq!(events.len(), 1);
    assert_eq!(events[0].token, Token(0));
    assert!(events[0].readable);
    assert!(!events[0].writable);
    // read from A: the 5 bytes come back, then would-block
    assert_eq!(world.read(End::A, 16), ReadOutcome::Bytes(b"hello".to_vec()));
    assert_eq!(world.read(End::A, 16), ReadOutcome::WouldBlock);
    // with nothing pending, a poll reports nothing
    assert!(world.poll().is_empty());
}

#[test]
fn poll_respects_interests_and_reregistration() {
    let mut world = PollWorld::new(1, 3, 4);
    assert!(world
        .register(End::A, Token(0), Interest::readable())
        .is_ok());
    // a second register of the same endpoint must fail
    assert_eq!(
        world.register(End::A, Token(9), Interest::readable()),
        Err(RegError::AlreadyRegistered)
    );
    // nothing pending: no events
    assert!(world.poll().is_empty());
    // writable interest is always satisfied by the model stream
    assert!(world
        .reregister(End::A, Token(9), Interest::writable())
        .is_ok());
    let events = world.poll();
    assert_eq!(events.len(), 1);
    assert_eq!(events[0].token, Token(9));
    assert!(events[0].writable);
    assert!(!events[0].readable);
    // after deregistration no further events are delivered
    assert!(world.deregister(End::A).is_ok());
    assert_eq!(world.write(End::B, b"x"), Ok(1));
    assert!(world.poll().is_empty());
}

#[test]
fn wake_is_a_readable_event_on_the_timer_token() {
    let mut world = PollWorld::new(1, 3, 4);
    world.waker_new(Token(1));
    world.wake();
    let events = world.poll();
    assert_eq!(events.len(), 1);
    assert_eq!(events[0].token, Token(1));
    assert!(events[0].readable);
    // the wake was consumed by the poll call
    assert!(world.poll().is_empty());
}

#[test]
fn wake_is_never_lost_before_a_poll() {
    let mut world = PollWorld::new(1, 3, 4);
    world.waker_new(Token(1));
    // fired while nothing is polling: stays pending until observed
    world.wake();
    world.wake();
    let events = world.poll();
    assert_eq!(events.len(), 1);
    assert_eq!(events[0].token, Token(1));
}

#[test]
fn stream_and_wake_can_appear_in_one_batch() {
    let mut world = PollWorld::new(1, 3, 4);
    assert!(world
        .register(End::A, Token(0), Interest::readable())
        .is_ok());
    world.waker_new(Token(1));
    assert_eq!(world.write(End::B, b"hi"), Ok(2));
    world.wake();
    let events = world.poll();
    assert_eq!(events.len(), 2);
    assert_eq!(events[0].token, Token(0));
    assert!(events[0].readable);
    assert_eq!(events[1].token, Token(1));
    assert!(events[1].readable);
}

#[test]
fn superseding_commands_coalesce_to_one_wake() {
    let mut timer = TimerProtocol::new();
    // issue commands with ids 1..=5 in quick succession, each superseding
    // the previous
    for _ in 0..5 {
        timer.issue(7);
    }
    let mut fired: usize = 0;
    while timer.queue_len() > 0 {
        if timer.coordinator_step() {
            fired += 1;
        }
    }
    // at most one wake fires, for the last command's deadline
    assert_eq!(fired, 1);
    assert_eq!(timer.wake_times().len(), 1);
    assert_eq!(timer.wake_times()[0], 7);
    assert_eq!(timer.current_id_value(), 5);
}

#[test]
fn single_command_always_fires_within_its_duration() {
    let mut timer = TimerProtocol::new();
    let cmd = timer.issue(3);
    assert_eq!(cmd.id, 1);
    assert_eq!(cmd.deadline, 3);
    assert!(timer.coordinator_step());
    assert_eq!(timer.wake_times().len(), 1);
    assert_eq!(timer.wake_times()[0], 3);
}

#[test]
fn dispatch_goes_by_token() {
    assert_eq!(dispatch(Token(0), Token(0), Token(1)), Dispatch::ReadInput);
    assert_eq!(dispatch(Token(1), Token(0), Token(1)), Dispatch::TimerElapsed);
    assert_eq!(dispatch(Token(2), Token(0), Token(1)), Dispatch::Unknown);
}

#[test]
fn fire_time_check_is_equality_with_the_counter() {
    assert!(should_fire(4, 4));
    assert!(!should_fire(3, 4));
    assert!(!should_fire(5, 4));
}

#[test]
fn timer_loop_end_to_end() {
    // with a fixed wait of W ticks and no input, K rounds of
    // "issue command, let it fire, poll" produce exactly K timer wakes,
    // separated by at least W, each carrying the timer token only
    let w: u64 = 5;
    let k: usize = 3;
    let mut world = PollWorld::new(1, 3, 4);
    assert!(world
        .register(End::A, Token(0), Interest::readable())
        .is_ok());
    world.waker_new(Token(1));
    let mut timer = TimerProtocol::new();
    let mut wake_events: usize = 0;
    for _ in 0..k {
        timer.issue(w);
        if timer.coordinator_step() {
            world.wake();
        }
        let events = world.poll();
        assert_eq!(events.len(), 1);
        assert_eq!(events[0].token, Token(1));
        wake_events += 1;
    }
    assert_eq!(wake_events, k);
    let times = timer.wake_times().clone();
    assert_eq!(times.len(), k);
    for i in 1..times.len() {
        assert!(times[i] - times[i - 1] >= w);
    }
}
