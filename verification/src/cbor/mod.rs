//! The compact binary object encoding that carries every payload.

pub mod head;
pub mod value;
pub mod encode;
pub mod decode;
pub mod laws;
