//! Routing, submissions and mixing.

pub mod connection;
pub mod mixer;
pub mod playback;
pub mod source;
