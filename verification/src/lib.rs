//! Cursor tracking for a panel applet: fuses window-local pointer events with
//! display-wide pointer samples, keeps the offset between the two coordinate
//! spaces calibrated, and stores that offset between runs.
//!
//! All coordinates are decimal fixed-point numbers counted in millionths, so
//! every rule of the fusion can be stated and proved over the integers.

pub mod decimal;
pub mod fixed;
pub mod global_cursor;
pub mod offset;
pub mod persist;
pub mod text;
pub mod tracker;
