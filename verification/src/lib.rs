//! A multi-lane toll plaza: vehicles are admitted to gates under a
//! load-balancing policy that keeps the last lane for carpooling, wait in a
//! first-in first-out queue, are served for a while, and leave a departure
//! record. The whole plaza runs on an accelerated simulated clock.
//!
//! The logic here is proved with Verus. What is taken on trust is marked
//! `external_body`: the readings of the machine's clock in `toll_clock` and
//! the random draws in `vehicle`. Threads, sleeping, the terminal and the
//! database live outside this crate and drive it through plain values.

pub mod gate;
pub mod logger;
pub mod span;
pub mod text;
pub mod toll;
pub mod toll_clock;
pub mod vehicle;
