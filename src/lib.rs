//! A remotely controllable cyclic interval timer.
//!
//! The timer engine lives in [`timer`]; the wire format of requests and
//! responses in [`codec`]; the resumable, I/O-free request state machines in
//! [`client`] and [`server`].

pub mod client;
pub mod codec;
pub mod server;
pub mod stream;
pub mod timer;

pub use codec::{Request, Response};
pub use timer::Timer;
