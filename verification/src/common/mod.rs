//! Helpers shared by the metadata layer and the read path.

pub mod chunks;
pub mod codec;
pub mod window;
