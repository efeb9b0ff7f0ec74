//! Receive controller: per-channel noise floors and the decisions that drive
//! a transceiver.

pub mod controller;
pub mod noicefloor;

pub use controller::Controller;
