//! Doorway occupancy counting with two ultrasonic rangefinders.
//!
//! The library holds the logic: the echo-timing protocol of one rangefinder
//! as a state machine fed with samples of the echo line and the tick counter,
//! the directional occupancy tracker that fuses two readings per cycle, and
//! the encoding of the count for a four-digit seven-segment display.
//! Driving pins and reading the hardware counter is left to the caller.
pub mod display;
pub mod occupancy;
pub mod ranging;
