//! Verified core of a multi-drop rotary-encoder telemetry bus.
//!
//! A set of encoder peripherals shares one half-duplex serial line. This
//! library holds everything about that bus that can be stated and proved:
//! the frame checksum, request-frame construction, discovery of responsive
//! device addresses, decoding of telemetry responses, the shared state
//! table refreshed by the polling sweep, the keystroke-driven selection
//! state machine, and the wire encoding of the published record. The
//! transport itself (serial reads and writes), the host dataflow runtime,
//! and the threads that tie them together live outside the library and
//! hand it plain values.

pub mod checksum;
pub mod frame;
pub mod registry;
pub mod selector;
pub mod table;
pub mod telemetry;
