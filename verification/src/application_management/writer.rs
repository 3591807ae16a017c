//! The requests of one upload, chunk by chunk.

use vstd::prelude::*;
use vstd::slice::slice_to_vec;
use crate::application_management::chunk::{ChunkRequestModel, WriteImageChunkRequest};
use crate::application_management::failure::COMMAND_UPLOAD;
use crate::smp::{next_sequence, sequence_after, Group, OpCode, SmpFrame};

verus! {

/// The request for the chunk `data` at `offset`. What is said of the image
/// as a whole, its slot, its length, its digest and whether only an upgrade
/// is accepted, is said at offset 0 and nowhere else.
pub open spec fn chunk_request(
    image: Option<u8>,
    len: usize,
    hash: Option<Seq<u8>>,
    upgrade: bool,
    offset: usize,
    data: Seq<u8>,
) -> ChunkRequestModel {
    if offset == 0 {
        ChunkRequestModel {
            image,
            len: Some(len as u64),
            off: 0,
            sha: hash,
            data,
            upgrade: Some(upgrade),
        }
    } else {
        ChunkRequestModel {
            image: None,
            len: None,
            off: offset as u64,
            sha: None,
            data,
            upgrade: None,
        }
    }
}

/// A request away from offset 0 carries its offset and its data and none of
/// the four things said of the whole image; a request at offset 0 carries
/// the length and the upgrade flag, and the slot and the digest as given.
pub proof fn lemma_metadata_only_at_start(
    image: Option<u8>,
    len: usize,
    hash: Option<Seq<u8>>,
    upgrade: bool,
    offset: usize,
    data: Seq<u8>,
)
    ensures
        ({
            let request = chunk_request(image, len, hash, upgrade, offset, data);
            &&& request.off == offset
            &&& request.data == data
            &&& offset != 0 ==> request.image is None && request.len is None && request.sha
                is None && request.upgrade is None
            &&& offset == 0 ==> request.image == image && request.len == Some(len as u64)
                && request.sha == hash && request.upgrade == Some(upgrade)
        }),
{
}

/// Builds the requests that upload one image.
#[derive(Debug, Clone, PartialEq, Eq)]
pub struct ImageWriter {
    /// The slot to write to; the device chooses where there is none.
    pub image: Option<u8>,
    /// Where the next chunk starts: what the device last reported.
    pub offset: usize,
    /// The length of the whole image.
    pub len: usize,
    /// The digest of the whole image.
    pub hash: Option<Vec<u8>>,
    /// Whether the device is to accept a newer version only.
    pub upgrade: bool,
    /// The sequence number of the next request.
    pub sequence: u8,
}

impl ImageWriter {
    /// The digest as a mathematical value.
    pub open spec fn hash_view(&self) -> Option<Seq<u8>> {
        match self.hash {
            Some(h) => Some(h@),
            None => None,
        }
    }

    /// A writer at offset 0 and sequence number 0.
    pub fn new(image: Option<u8>, len: usize, hash: Option<Vec<u8>>, upgrade: bool) -> (writer:
        ImageWriter)
        ensures
            writer == (ImageWriter { image, offset: 0, len, hash, upgrade, sequence: 0 }),
    {
        ImageWriter { image, offset: 0, len, hash, upgrade, sequence: 0 }
    }

    /// The frame that asks the device to write `data` at the writer's
    /// offset. The offset stays: it follows what the device answers. The
    /// sequence number moves on by one.
    pub fn write_chunk(&mut self, data: &[u8]) -> (frame: SmpFrame<WriteImageChunkRequest>)
        ensures
            frame@ == (SmpFrame {
                operation: OpCode::WriteRequest,
                flags: 0,
                group: Group::ApplicationManagement,
                sequence: old(self).sequence,
                command: COMMAND_UPLOAD,
                data: chunk_request(
                    old(self).image,
                    old(self).len,
                    old(self).hash_view(),
                    old(self).upgrade,
                    old(self).offset,
                    data@,
                ),
            }),
            *final(self) == (ImageWriter {
                sequence: next_sequence(old(self).sequence),
                ..*old(self)
            }),
    {
        let payload = if self.offset == 0 {
            let sha = match &self.hash {
                Some(h) => Some(slice_to_vec(h.as_slice())),
                None => None,
            };
            WriteImageChunkRequest {
                image: self.image,
                len: Some(self.len as u64),
                off: 0,
                sha,
                data: slice_to_vec(data),
                upgrade: Some(self.upgrade),
            }
        } else {
            WriteImageChunkRequest {
                image: None,
                len: None,
                off: self.offset as u64,
                sha: None,
                data: slice_to_vec(data),
                upgrade: None,
            }
        };
        let sequence = self.sequence;
        self.sequence = sequence_after(sequence);
        SmpFrame::new(
            OpCode::WriteRequest,
            sequence,
            Group::ApplicationManagement,
            COMMAND_UPLOAD,
            payload,
        )
    }
}

} // verus!
