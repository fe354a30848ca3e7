//! The OpenList file-system API: its request and response bodies, and the checks
//! applied to each response envelope.

pub mod client;
pub mod types;
