//! Core of a MIDI input capture layer.
//!
//! The library enumerates the input ports a device driver reports, keeps at
//! most one live connection to a port in a single slot, and forwards each
//! captured message to a downstream event sink in arrival order, byte for
//! byte. The device driver and the event sink are outside collaborators: the
//! host program queries the driver and hands their answers to this library as
//! plain values, and sends the events the library produces on to the sink.

pub mod event;
pub mod manager;
pub mod ports;
pub mod session;
