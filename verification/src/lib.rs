//! Device abstraction and command dispatch for two kinds of addressable
//! lighting hardware: light groups managed by a network bridge, and
//! peripherals that expose their effects through kernel attribute files.
//!
//! Everything here is pure: the functions build requests, judge responses
//! and decide the next step, while the caller performs the network and file
//! operations and reports their results back.

pub mod bridge;
pub mod catalog;
pub mod color;
pub mod dispatch;
pub mod error;
pub mod group;
pub mod hardware;
pub mod json;
pub mod number;
pub mod reader;
pub mod text;
