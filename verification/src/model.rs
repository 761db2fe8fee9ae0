//! The records this crate stores.

pub mod credential;
