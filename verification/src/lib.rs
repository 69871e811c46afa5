//! Verified core of the Polymarket command-line race-test runner and of its
//! authentication helpers.

pub mod auth;
pub mod laws;
pub mod number;
pub mod order_id;
pub mod plan;
pub mod race;
pub mod run;
pub mod text;
pub mod trusted;
