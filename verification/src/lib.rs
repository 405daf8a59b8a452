//! A minimal arithmetic calculation service library.
//!
//! Given two numbers, the service computes their sum, difference, product and
//! quotient, persists each request/result pair in an append-only store, and
//! renders the outcome as structured JSON over a small HTTP-like surface.
//!
//! Numbers travel through this library as their rendered decimal text together
//! with, where a decision depends on it, their 64-bit IEEE 754 bit pattern.
//! The floating-point arithmetic itself is performed by the caller; everything
//! the library decides, assembles or stores is verified.

pub mod calc;
pub mod handler;
pub mod parse;
pub mod respond;
pub mod store;
