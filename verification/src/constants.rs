//! Timing and sizing constants of the board.

use vstd::prelude::*;

verus! {

/// Size in bytes of the RAM buffer that collects telemetry rows before they go to the SD card.
pub const BUF_SIZE: usize = 2048;

/// Period of the LoRa downlink.
pub const LORA_TRANSMIT_INTERVAL_MS: u64 = 500;

/// Period of the SD telemetry rows.
pub const SD_LOG_INTERVAL_MS: u64 = 100;

/// Longest time between two periodic flushes of the SD log.
pub const SD_FLUSH_INTERVAL_SECS: u64 = 1;

/// Longest time that one CAN transmission may take.
pub const CAN_TX_TIMEOUT_MS: u64 = 100;

/// Period at which the CAN controller's error counters are inspected.
pub const CAN_HEALTH_MONITOR_INTERVAL_MS: u64 = 100;

/// Number of consecutive errors from which the CAN bus counts as faulty.
pub const CAN_CONSECUTIVE_ERROR_THRESHOLD: u8 = 3;

/// Provisional window in which a transmitted command is expected to show up in the controller
/// status. To be set again once the period of the status message has been measured.
pub const COMMAND_CONFIRM_TIMEOUT_MS: u64 = 500;

/// Longest wait for the LoRa module's AUX line to go high.
pub const LORA_AUX_TIMEOUT_MS: u64 = 1_000;

} // verus!
