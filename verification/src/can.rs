//! CAN bus: wire protocol, command life cycle and controller health.

pub mod command;
pub mod protocol;
pub mod receive;
pub mod runtime;
