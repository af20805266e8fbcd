//! Control logic for a winding rig: a digital potentiometer driven over a
//! write-only three-wire protocol, and the blink scheduler of its status light.
//!
//! Nothing in this crate touches hardware. Every operation works on plain
//! values and hands back what has to be driven onto the lines, so the same
//! logic serves any GPIO back-end and can be exercised without one.

pub mod digipot;
pub mod indicator_led;
pub mod signal;
