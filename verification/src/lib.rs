//! A sensor-to-actuator feedback pipeline for a small controller.
//!
//! A noisy analog input is sampled again and again, smoothed by a chain of
//! filters and normalized into a bounded range. The producer publishes the
//! raw, the filtered and the normalized value in a shared state; the consumer
//! loads them, frame after frame, and turns them into text, bar gauges and
//! actuator signals.
//!
//! The library holds the decisions and the arithmetic of both sides. Reading
//! the converter, drawing and driving the actuators are left to the program
//! around it.

pub mod cascade;
pub mod filter;
pub mod gauge;
pub mod geometric;
pub mod hysteresis;
pub mod label;
pub mod moving_average;
pub mod normalize;
pub mod patterns;
pub mod readout;
pub mod recovery;
pub mod sampler;
pub mod settling;
pub mod shared;
pub mod text;
