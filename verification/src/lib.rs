//! Client side of the Simple Management Protocol: frames, the payloads of the
//! command groups, the exchange with a device and the upload of firmware images.

pub mod cbor;
pub mod error;
pub mod record;
pub mod shape;
pub mod smp;
pub mod setting_management;
pub mod os_management;
pub mod shell_management;
pub mod application_management;
pub mod hash;
pub mod upload;
pub mod transport;
pub mod client;

pub use smp::{Group, OpCode, SmpFrame};
