# Communication board

Decision logic of a rocket communication board, proved with Verus, and the firmware around it.

The board relays ground commands from a LoRa modem to a CAN bus, gathers CAN telemetry and GNSS
fixes into a 39-byte telemetry record that it sends back over LoRa, and records the same telemetry
on an SD card as CSV.

- `src/` is the library. Every function states what it returns or changes; functions named `law_..`
  state what holds of the library as a whole.
- `tests/` runs the library on concrete values.
- `app/` is the firmware for the ESP32-S3: pins, buses, tasks and floating point.

## Layout of the library

| module | contents |
| --- | --- |
| `can::protocol` | frames on the CAN bus, the controller status byte |
| `can::command` | ground commands and the life cycle of a tracked request |
| `can::receive` | what a received frame does to the board |
| `can::runtime` | health of the bus and recovery from faults |
| `command_process` | what a ground command does to the board and to the bus |
| `state` | the state of the board |
| `history` | what holds of the board over any course of events |
| `payload` | the telemetry record and its checksum |
| `lora_uplink` | framing of the uplink |
| `lora_transmit` | the steps of a transmission, the guard time, the schedule |
| `lora_timing` | timing statistics of the transmissions |
| `gnss` | sentences, power sequence and fixes of the GNSS receiver |
| `csv`, `sd_log`, `sd_time` | rows, buffering and time stamps of the SD log |
| `roundtrip` | the round-trip trial of the radio link |

## Where state comes from

What the controller does is known from its status message only. A command is a request, and its
transmission says no more than that a frame reached the bus: neither changes the telemetry record.
The state of an emergency stop has no status bit, so such a request is followed until it is sent
and never counts as completed.
