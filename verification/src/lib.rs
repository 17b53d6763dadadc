//! A transport-agnostic packet protocol and command-dispatch core for a
//! neural-simulation I/O controller: length-prefixed frames are decoded out
//! of a fragmented byte stream, routed as typed commands to GPIO and a 5x5
//! display buffer, and sensor samples travel back as bounded text packets
//! under a wrapping frame counter.

pub mod bluetooth;
pub mod command;
pub mod control;
pub mod dispatch;
pub mod display;
pub mod encoder;
pub mod gpio;
pub mod hbuf;
pub mod protocol;
pub mod sensors;
pub mod vbus;
