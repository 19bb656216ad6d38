//! Treadmill telemetry decoding, control-command encoding and workout
//! compilation for Bluetooth Fitness Machine Service treadmills.

pub mod command;
pub mod device;
pub mod duration;
pub mod pace;
pub mod telemetry;
pub mod text;
pub mod wire;
pub mod workout;
