//! Stochastic ON/OFF packet-train traffic model.
//!
//! A packet train is one simulated traffic source that alternates between an
//! idle (`OFF`) and an active (`ON`) period, each drawn from its own duration
//! distribution. While a train is `ON` it is allowed to emit packets up to a
//! sampled instantaneous rate. The library holds the state machine of a
//! train, the bandwidth calibration that rescales a mix of trains to a target
//! aggregate rate, and the decisions of the dispatch loop (which train is due,
//! whether a packet may be sent, whether the loop may sleep). Sampling from
//! the probability distributions, the system clock and the outbound socket
//! stay with the caller: every operation here takes the current time and the
//! sampled values as plain integers (microseconds, bytes, bytes per second).

pub mod calibrate;
pub mod dispatch;
pub mod packet_train;
