//! Non-blocking driver logic for an HC-SR04 class ultrasonic range finder,
//! timed by a free-running cycle counter.

pub mod hc_sr04;
pub mod smart_timer;
