// A verified core for readiness-based I/O multiplexing: correlation tokens,
// interest sets, the registration state machine that every pollable resource
// follows, retry handling for interrupted operations, a byte-stream pair
// model, a poll/event model, and a coalescing single-shot timer protocol.

pub mod token;
pub mod interest;
pub mod registration;
pub mod registry;
pub mod retry;
pub mod sourcefd;
pub mod io_source;
pub mod stream;
pub mod timer;
pub mod poll;
