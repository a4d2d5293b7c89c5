//! Bridge between a game-style controller on a serial link and a
//! flight-capable drone on a network channel.
//!
//! The crate holds the verified core of the driver: the framing decoder
//! that recovers button-state snapshots from a raw byte stream
//! (`controller`), the hand-off of the latest snapshot between the
//! decoding thread and the control loop (`bridge`), the pure mapping
//! from button state and telemetry to flight commands (`commands`), and
//! the per-cycle decisions of the polling loop (`control`). Serial,
//! network and process I/O live outside the crate and exchange plain
//! values with it.

pub mod bridge;
pub mod commands;
pub mod control;
pub mod controller;

pub use bridge::StateBridge;
pub use commands::Command;
pub use commands::FlightTelemetry;
pub use control::ControlLoop;
pub use controller::ControllerState;
pub use controller::FrameDecoder;
