//! The application group: the firmware images on the device.

pub mod failure;
pub mod state;
pub mod chunk;
pub mod writer;

pub use failure::ErrorPayload;
pub use state::{get_state, GetImageStateResult, GetStatePayload, GetStateRequest, ImageState};
pub use chunk::{WriteImageChunkPayload, WriteImageChunkRequest, WriteImageChunkResult};
pub use writer::ImageWriter;
