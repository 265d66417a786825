//! A discrete-time 2D particle simulation: point masses attract each other
//! under an inverse-square law, reverse velocity when they pass close to one
//! another, and advance by Euler integration, all gated by a pause flag.
//! An axis-sorted index of the bodies is rebuilt every frame.
//!
//! All coordinates, velocities and times are fixed-point values: an `i64`
//! holds the quantity multiplied by `SCALE`, so one length unit is `SCALE`
//! ticks. Arithmetic is exact integer arithmetic with division rounded
//! toward zero, which keeps every frame deterministic.

pub mod body;
pub mod collision;
pub mod gravity;
pub mod index;
pub mod math;
pub mod motion;
pub mod sim;
