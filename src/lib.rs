//! Dues bookkeeping for the members of a cooperative: billing periods, their generation and
//! reconciliation, and the payments recorded against them.
pub mod date;
pub mod error;
pub mod period;
pub mod dues;
pub mod models;
