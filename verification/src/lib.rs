//! Verified core of a notification-driven LED blinker.

pub mod filter;
pub mod led;
pub mod poll;
pub mod stream;
pub mod supervisor;
pub mod text;
pub mod tracker;
