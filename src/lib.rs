//! Device-flow authorization and notification polling for an issue-tracker API.
//!
//! The library holds the decisions of both protocol loops as verified state
//! machines; sending requests, sleeping and rendering are left to the caller.

pub mod auth;
pub mod decimal;
pub mod err;
pub mod notifications;
pub mod timestamp;

pub use err::AppError;
