//! Core logic of an embedded GUI platform adapter.
//!
//! The adapter binds a retained-mode GUI toolkit to a microcontroller's
//! display controller and capacitive touch controller, and runs a
//! single-threaded cooperative event loop. This crate holds the decision
//! logic of that adapter, verified: the touch-sampling state machine that
//! turns raw contact samples into pointer-event transitions, the
//! cross-context invocation queue that feeds work into the loop in
//! submission order, the interrupt-synchronized double-buffer swap
//! protocol, and the per-iteration orchestration of the main loop.
//!
//! Hardware access (the display controller, the touch controller's bus,
//! the vertical-sync interrupt) and the toolkit itself stay outside; they
//! hand this crate plain values and carry out the plans it returns.

pub mod display;
pub mod event_loop;
pub mod queue;
pub mod touch;
