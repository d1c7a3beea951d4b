//! Bridge between the System Exclusive protocol of Behringer B-Control
//! surfaces and Open Sound Control.
//!
//! The crate holds the protocol logic only: the byte codec of the device's
//! commands, the reassembly of a script sent line by line, the rules that
//! map control changes to OSC messages and back, and the state that the
//! bridging service moves through. Ports, sockets and tasks belong to the
//! program that uses it.

pub mod b_control;
pub mod bcl;
pub mod message;
pub mod midi_io;
pub mod osc_service;
pub mod text;
pub mod translator;
