//! The core of a small message board that talks MessagePack over a byte
//! stream: framing under size and depth limits, the commands of a session,
//! and the tokens that authentication hands out.

pub mod action;
pub mod auth;
pub mod client;
pub mod codec;
pub mod convert;
pub mod message;
pub mod registry;
pub mod secrets;
pub mod session;
pub mod wire;
