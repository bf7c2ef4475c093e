//! Keeps a display backlight in step with a time-of-day brightness curve.
//!
//! The library holds the verified core of a small daemon: the error
//! taxonomy and its fatal/transient split, the codec for the device
//! file's contents, the fixed-point brightness curve, and the per-tick
//! decision logic of the control loop. The surrounding binary supplies
//! the file I/O and the sleeps and acts on the decisions made here.

pub mod clock;
pub mod codec;
pub mod curve;
pub mod error;
pub mod policy;
