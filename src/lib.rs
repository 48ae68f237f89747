//! Actuator hardware-abstraction layer of the K-Bot control daemon.
//!
//! The library holds the decision logic of the actuator stack: the binary
//! register protocol of the serial gripper, the gripper's finger-position
//! cache, the mapping of actuator IDs onto fingers, the planning of CAN motor
//! configuration steps, the feedback staleness rule, and the routing of
//! commands to backends by inclusive ID ranges.

pub mod frame;
pub mod hand;
pub mod platform;
pub mod proxyactuator;
pub mod registers;
pub mod rh56actuator;
pub mod rsactuator;
pub mod text;

pub use frame::FrameError;
pub use hand::{Hand, HandError};
pub use platform::KbotPlatform;
pub use proxyactuator::{ProxyActuator, Route};
pub use rh56actuator::{FingerCommand, FingerMove, FingerRead, RH56Actuator};
pub use rsactuator::{ConfigStep, ConfigureFlags, PortError, TransportKind};
