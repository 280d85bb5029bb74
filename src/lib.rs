//! Observing how far another process has read or written a file it holds open.

pub mod decimal;
pub mod error;
pub mod fdinfo;
pub mod resolve;
pub mod sampler;
pub mod session;
