//! A pomodoro timer's verified core: a poll-based, drift-free countdown
//! timer, the cyclic Work / Short Break / Long Break phase controller on top
//! of it, the flat `key=value` configuration it is tuned by, and the key
//! dispatch that drives it. Every operation that depends on the wall clock
//! has an exact `*_at` form taking the clock sample as an argument; the
//! plain forms sample the clock once and promise what holds for every
//! sample.

mod clock;
pub mod timer;
pub mod app;
pub mod config;
pub mod event;
pub mod input;
