//! The iOS Simulator page: key mapping, device selection, input and the
//! mirrored video stream.
pub mod command;
pub mod control;
pub mod device;
pub mod event;
pub mod stream;
pub mod hid;
pub mod input;
pub mod keyboard;
