//! minz-core: the host-testable brain of a sensorless brushless motor
//! controller.
//!
//! Everything here is pure logic: plain state values plus data-in /
//! data-out functions. Timestamps, ADC samples and comparator levels
//! arrive as arguments; hardware is reached only through the traits of
//! [`am32_hal`], and shared memory only through [`bus`].

pub mod a85;
pub mod am32;
pub mod am32_control;
pub mod am32_hal;
pub mod am32_isr;
pub mod am32_loop;
pub mod bits;
pub mod blackbox;
pub mod bus;
pub mod cells;
pub mod drive;
pub mod dump;
pub mod edgebuf;
pub mod estimator;
pub mod guards;
pub mod mode;
pub mod rates;
pub mod sense;
pub mod start;
pub mod text;
pub mod throttle;
pub mod ticks;
pub mod timing;
pub mod ui;
pub mod window;
pub mod wire;
pub mod zc;
pub mod zct_trace;
