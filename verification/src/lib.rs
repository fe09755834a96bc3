//! Core of an Allan-deviation analysis pipeline for oscillator stability
//! measurements.
//!
//! The pipeline runs in four stages: normalize the input series into phase
//! data, generate the averaging factors ("m" values, one per candidate tau),
//! compute the (overlapped) Allan deviation at each factor, and filter out
//! rows whose effective sample count is too small to report.
//!
//! This crate holds every decision the pipeline makes: input-kind dispatch,
//! rate validation, tau-ladder generation and acceptance filtering, overlap
//! window counting, the degrade-to-zero policy for infeasible rows, and the
//! final result filter. Sample values themselves are carried as opaque IEEE
//! 754 bit patterns (`u64`), so the real-valued arithmetic (integration,
//! second differences, square roots) is left to the caller, which hands the
//! resulting values back for assembly and filtering.

pub mod convert;
pub mod deviation;
pub mod errors;
pub mod results;
pub mod taus;
