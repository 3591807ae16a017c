//! The error that this group answers with.

use vstd::prelude::*;

verus! {

/// The command that reports the state of the images.
pub const COMMAND_STATE: u8 = 0;

/// The command that uploads a chunk of an image.
pub const COMMAND_UPLOAD: u8 = 1;

/// An error of this group: a return code and, where the device gives one,
/// a reason in words.
#[derive(Debug, Clone, PartialEq, Eq)]
pub struct ErrorPayload {
    pub rc: i32,
    pub rsn: Option<String>,
}

impl View for ErrorPayload {
    type V = (i32, Option<Seq<char>>);

    open spec fn view(&self) -> (i32, Option<Seq<char>>) {
        (
            self.rc,
            match self.rsn {
                Some(t) => Some(t@),
                None => None,
            },
        )
    }
}

} // verus!
