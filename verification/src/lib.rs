//! Decision logic of a rocket communication board.
//!
//! The board relays ground commands received over LoRa to the CAN bus, gathers CAN telemetry and
//! GNSS fixes into a fixed 39-byte downlink, and records the same telemetry on an SD card as CSV.
//! This crate holds everything that can be decided without touching the hardware: the wire
//! formats, the command life cycle, the recovery rules and the buffering rules.

pub mod can;
pub mod command_process;
pub mod constants;
pub mod csv;
pub mod gnss;
pub mod history;
pub mod lora_timing;
pub mod lora_transmit;
pub mod lora_uplink;
pub mod payload;
pub mod roundtrip;
pub mod sd_log;
pub mod sd_time;
pub mod state;
