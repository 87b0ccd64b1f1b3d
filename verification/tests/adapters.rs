use reactor_io::interest::Interest;
use reactor_io::io_source::IoSource;
use reactor_io::registration::RegError;
use reactor_io::registry::Registry;
use reactor_io::retry::{retried_internally, resolve_attempts, IoAttempt};
use reactor_io::sourcefd::SourceFd;
use reactor_io::token::Token;

#[test]
fn interest_readable_writable() {
    let r = Interest::readable();
    let w = Interest::writable();
    assert!(r.is_readable());
    assert!(!r.is_writable());
    assert!(!w.is_readable());
    assert!(w.is_writable());
}

#[test]
fn interest_add_is_union() {
    let both = Interest::readable().add(Interest::writable());
    assert!(both.is_readable());
    assert!(both.is_writable());
    let same = Interest::readable().add(Interest::readable());
    assert!(same.is_readable());
    assert!(!same.is_writable());
}

#[test]
fn interest_remove_is_difference() {
    let both = Interest::readable().add(Interest::writable());
    let left = both.remove(Interest::writable()).unwrap();
    assert!(left.is_readable());
    assert!(!left.is_writable());
    assert!(Interest::readable().remove(Interest::readable()).is_none());
    assert!(both.remove(both).is_none());
}

#[test]
fn register_then_reregister_changes_only_interests() {
    let mut registry = Registry::new(1);
    let mut source = IoSource::new((), 5);
    assert!(source
        .register(&mut registry, Token(7), Interest::readable())
        .is_ok());
    // a second register of the same resource before deregister must fail
    assert_eq!(
        source.register(&mut registry, Token(7), Interest::readable()),
        Err(RegError::AlreadyRegistered)
    );
    // reregister with the same token succeeds and changes the interest set
    assert!(source
        .reregister(&mut registry, Token(7), Interest::writable())
        .is_ok());
    // after deregister the cycle can start over
    assert!(source.deregister(&mut registry).is_ok());
    assert!(source
        .register(&mut registry, Token(8), Interest::writable())
        .is_ok());
}

#[test]
fn reregister_and_deregister_need_prior_register() {
    let mut registry = Registry::new(1);
    let mut source = IoSource::new((), 5);
    assert_eq!(
        source.reregister(&mut registry, Token(0), Interest::readable()),
        Err(RegError::NotRegistered)
    );
    assert_eq!(source.deregister(&mut registry), Err(RegError::NotRegistered));
}

#[test]
fn register_refused_under_another_reactor() {
    let mut first = Registry::new(1);
    let mut second = Registry::new(2);
    let mut source = IoSource::new((), 5);
    assert!(source
        .register(&mut first, Token(0), Interest::readable())
        .is_ok());
    // registered with one reactor: the other refuses both ways
    assert_eq!(
        source.register(&mut second, Token(0), Interest::readable()),
        Err(RegError::AlreadyRegistered)
    );
    assert_eq!(
        source.reregister(&mut second, Token(0), Interest::readable()),
        Err(RegError::NotRegistered)
    );
}

#[test]
fn io_source_keeps_its_resource() {
    let source = IoSource::new(42u8, 3);
    assert_eq!(source.into_inner(), 42u8);
    let source = IoSource::new(String::from("tty"), 0);
    assert_eq!(source.inner().as_str(), "tty");
}

#[test]
fn sourcefd_registers_borrowed_descriptor() {
    let mut registry = Registry::new(9);
    let fd: i32 = 11;
    assert!(SourceFd(&fd)
        .register(&mut registry, Token(2), Interest::readable())
        .is_ok());
    // the descriptor is tracked: a second registration is refused
    assert_eq!(
        SourceFd(&fd).register(&mut registry, Token(3), Interest::readable()),
        Err(RegError::AlreadyRegistered)
    );
    assert!(SourceFd(&fd)
        .reregister(&mut registry, Token(3), Interest::writable())
        .is_ok());
    assert!(SourceFd(&fd).deregister(&mut registry).is_ok());
    assert_eq!(
        SourceFd(&fd).deregister(&mut registry),
        Err(RegError::NotRegistered)
    );
}

#[test]
fn retry_swallows_interrupted_only() {
    assert!(retried_internally(&IoAttempt::Interrupted));
    assert!(!retried_internally(&IoAttempt::WouldBlock));
    assert!(!retried_internally(&IoAttempt::Done(0)));
    assert!(!retried_internally(&IoAttempt::Failed(13)));
}

#[test]
fn do_io_retries_interrupted_and_surfaces_the_rest() {
    let source = IoSource::new((), 4);
    let attempts = vec![
        IoAttempt::Interrupted,
        IoAttempt::Interrupted,
        IoAttempt::Done(5),
    ];
    assert_eq!(source.do_io(&attempts), IoAttempt::Done(5));
    // would-block is surfaced, never retried on the caller's behalf
    let attempts = vec![IoAttempt::WouldBlock, IoAttempt::Done(5)];
    assert_eq!(source.do_io(&attempts), IoAttempt::WouldBlock);
    // other errors are surfaced verbatim
    let attempts = vec![IoAttempt::Interrupted, IoAttempt::Failed(32)];
    assert_eq!(source.do_io(&attempts), IoAttempt::Failed(32));
    let attempts = vec![IoAttempt::Done(0)];
    assert_eq!(resolve_attempts(&attempts), IoAttempt::Done(0));
}
