//! The upload of an image: chunk after chunk, each from the offset that the
//! device last reported.

use vstd::prelude::*;
use vstd::slice::slice_subrange;
use crate::application_management::chunk::{WriteImageChunkRequest, WriteImageChunkResult};
use crate::application_management::failure::{ErrorPayload, COMMAND_UPLOAD};
use crate::application_management::writer::{chunk_request, ImageWriter};
use crate::hash::{sha256, sha256_digest};
use crate::smp::{next_sequence, Group, OpCode, SmpFrame};

verus! {

/// Where an upload stands.
#[derive(Debug, Clone, Copy, PartialEq, Eq, Structural)]
pub enum UploadPhase {
    /// No request has been built.
    NotStarted,
    /// The device has not yet confirmed the whole image.
    Uploading,
    /// The device has confirmed the whole image; the outcome is not yet taken.
    Verifying,
    /// The outcome has been taken.
    Done,
    /// The device answered with an error, or the exchange failed.
    Failed,
}

/// What the device said of the digest of the image it received.
#[derive(Debug, Clone, Copy, PartialEq, Eq, Structural)]
pub enum Verification {
    /// The digest matched.
    Verified,
    /// The digest did not match: the image is on the device, but it is not
    /// the one that was announced.
    Mismatch,
    /// The device did not say.
    Unknown,
}

/// The state of an upload.
#[derive(Debug, Clone, Copy, PartialEq, Eq)]
pub struct UploadState {
    pub phase: UploadPhase,
    /// The offset that the device last reported; 0 at the start.
    pub offset: usize,
    pub total_length: usize,
    pub chunk_size: usize,
    /// What the device said of the digest, once it has said it.
    pub verified: Option<bool>,
}

/// The offset that the device reported, as an index into the image. An
/// offset beyond every index is the largest index: it lies at or beyond the
/// end of every image.
pub open spec fn reported_offset(off: u64) -> usize {
    if off <= usize::MAX {
        off as usize
    } else {
        usize::MAX
    }
}

/// What is known of the digest after the device has answered: a mismatch
/// once reported stays, and an answer without a flag changes nothing.
pub open spec fn merged_flag(known: Option<bool>, reported: Option<bool>) -> Option<bool> {
    if known == Some(false) {
        known
    } else if reported is Some {
        reported
    } else {
        known
    }
}

impl UploadState {
    /// The state before the first request.
    pub open spec fn initial(total_length: usize, chunk_size: usize) -> UploadState {
        UploadState {
            phase: UploadPhase::NotStarted,
            offset: 0,
            total_length,
            chunk_size,
            verified: None,
        }
    }

    /// A chunk is to be sent: the upload has not ended and the device has
    /// not confirmed the whole image.
    pub open spec fn wants_chunk(self) -> bool {
        (self.phase is NotStarted || self.phase is Uploading) && self.offset < self.total_length
    }

    /// Where the next chunk ends: a chunk size after the offset, or at the
    /// end of the image where that comes first.
    pub open spec fn chunk_end(self) -> int {
        if self.offset + self.chunk_size < self.total_length {
            self.offset + self.chunk_size
        } else {
            self.total_length as int
        }
    }

    /// The state after a request for the next chunk has been built.
    pub open spec fn sent(self) -> UploadState {
        if self.wants_chunk() {
            UploadState { phase: UploadPhase::Uploading, ..self }
        } else {
            self
        }
    }

    /// The state after the device has answered a chunk with its offset. The
    /// offset is the device's, whether it lies before or after the one that
    /// was asked for.
    pub open spec fn accepted(self, off: u64, matched: Option<bool>) -> UploadState {
        if self.phase is Uploading {
            UploadState {
                phase: if reported_offset(off) >= self.total_length {
                    UploadPhase::Verifying
                } else {
                    UploadPhase::Uploading
                },
                offset: reported_offset(off),
                verified: merged_flag(self.verified, matched),
                ..self
            }
        } else {
            self
        }
    }

    /// The state after the device has answered a chunk with an error.
    pub open spec fn rejected(self) -> UploadState {
        if self.phase is Uploading {
            UploadState { phase: UploadPhase::Failed, ..self }
        } else {
            self
        }
    }

    /// The state after an exchange has failed: the offset stays.
    pub open spec fn lost(self) -> UploadState {
        if self.phase is Uploading || self.phase is Verifying {
            UploadState { phase: UploadPhase::Failed, ..self }
        } else {
            self
        }
    }

    /// The outcome can be taken: the device has confirmed the whole image,
    /// or the image is empty and nothing was to be sent.
    pub open spec fn can_finish(self) -> bool {
        self.phase is Verifying || (self.phase is NotStarted && self.total_length == 0)
    }

    /// The state after the outcome has been taken.
    pub open spec fn finished(self) -> UploadState {
        if self.can_finish() {
            UploadState { phase: UploadPhase::Done, ..self }
        } else {
            self
        }
    }

    /// What the device said of the digest.
    pub open spec fn verification(self) -> Verification {
        match self.verified {
            Some(true) => Verification::Verified,
            Some(false) => Verification::Mismatch,
            None => Verification::Unknown,
        }
    }

    /// The state before the first request.
    pub fn new(total_length: usize, chunk_size: usize) -> (state: UploadState)
        ensures
            state == UploadState::initial(total_length, chunk_size),
    {
        UploadState {
            phase: UploadPhase::NotStarted,
            offset: 0,
            total_length,
            chunk_size,
            verified: None,
        }
    }

    /// The part of the image to send next, from its first index to the one
    /// after its last; nothing where no chunk is to be sent.
    pub fn next_chunk(&self) -> (r: Option<(usize, usize)>)
        ensures
            self.wants_chunk() ==> r == Some((self.offset, self.chunk_end() as usize))
                && self.offset <= self.chunk_end() <= self.total_length,
            !self.wants_chunk() ==> r is None,
    {
        let active = match self.phase {
            UploadPhase::NotStarted => true,
            UploadPhase::Uploading => true,
            _ => false,
        };
        if active && self.offset < self.total_length {
            let room: usize = self.total_length - self.offset;
            let end: usize = if self.chunk_size < room {
                self.offset + self.chunk_size
            } else {
                self.total_length
            };
            Some((self.offset, end))
        } else {
            None
        }
    }

    /// Records that a request for the next chunk has been built.
    pub fn on_sent(self) -> (next: UploadState)
        ensures
            next == self.sent(),
    {
        if self.next_chunk().is_some() {
            UploadState { phase: UploadPhase::Uploading, ..self }
        } else {
            self
        }
    }

    /// Takes the device's offset and its word on the digest.
    pub fn on_accepted(self, off: u64, matched: Option<bool>) -> (next: UploadState)
        ensures
            next == self.accepted(off, matched),
    {
        match self.phase {
            UploadPhase::Uploading => {
                let offset: usize = if off <= usize::MAX as u64 {
                    off as usize
                } else {
                    usize::MAX
                };
                let verified = match (self.verified, matched) {
                    (Some(false), _) => Some(false),
                    (_, Some(flag)) => Some(flag),
                    (known, None) => known,
                };
                let phase = if offset >= self.total_length {
                    UploadPhase::Verifying
                } else {
                    UploadPhase::Uploading
                };
                UploadState { phase, offset, verified, ..self }
            },
            _ => self,
        }
    }

    /// Records that the device answered a chunk with an error.
    pub fn on_rejected(self) -> (next: UploadState)
        ensures
            next == self.rejected(),
    {
        match self.phase {
            UploadPhase::Uploading => UploadState { phase: UploadPhase::Failed, ..self },
            _ => self,
        }
    }

    /// Records that an exchange failed.
    pub fn on_lost(self) -> (next: UploadState)
        ensures
            next == self.lost(),
    {
        match self.phase {
            UploadPhase::Uploading => UploadState { phase: UploadPhase::Failed, ..self },
            UploadPhase::Verifying => UploadState { phase: UploadPhase::Failed, ..self },
            _ => self,
        }
    }

    /// Takes the outcome, where it can be taken.
    pub fn on_finished(self) -> (r: (UploadState, Option<Verification>))
        ensures
            r.0 == self.finished(),
            self.can_finish() ==> r.1 == Some(self.verification()),
            !self.can_finish() ==> r.1 is None,
    {
        let ready = match self.phase {
            UploadPhase::Verifying => true,
            UploadPhase::NotStarted => self.total_length == 0,
            _ => false,
        };
        if ready {
            let outcome = match self.verified {
                Some(true) => Verification::Verified,
                Some(false) => Verification::Mismatch,
                None => Verification::Unknown,
            };
            (UploadState { phase: UploadPhase::Done, ..self }, Some(outcome))
        } else {
            (self, None)
        }
    }
}

/// One phase may follow another: an upload starts, goes on until the device
/// has confirmed the whole image, and ends with its outcome taken; it fails
/// only while it is under way; an empty image has its outcome taken at once.
pub open spec fn may_follow(before: UploadPhase, after: UploadPhase) -> bool {
    match (before, after) {
        (UploadPhase::NotStarted, UploadPhase::Uploading) => true,
        (UploadPhase::NotStarted, UploadPhase::Done) => true,
        (UploadPhase::Uploading, UploadPhase::Verifying) => true,
        (UploadPhase::Uploading, UploadPhase::Failed) => true,
        (UploadPhase::Verifying, UploadPhase::Done) => true,
        (UploadPhase::Verifying, UploadPhase::Failed) => true,
        _ => before == after,
    }
}

impl UploadState {
    /// The phase fits the offset: an upload that is going on has not reached
    /// the end of the image, and one whose image is confirmed has.
    pub open spec fn consistent(self) -> bool {
        &&& self.phase is NotStarted ==> self.offset == 0 && self.verified is None
        &&& self.phase is Uploading ==> self.offset < self.total_length
        &&& self.phase is Verifying ==> self.offset >= self.total_length
    }
}

/// Every step leads from a phase to one that may follow it, and an upload
/// that is done or has failed stays as it is.
pub proof fn lemma_phases_in_order(state: UploadState, off: u64, matched: Option<bool>)
    ensures
        may_follow(state.phase, state.sent().phase),
        may_follow(state.phase, state.accepted(off, matched).phase),
        may_follow(state.phase, state.rejected().phase),
        may_follow(state.phase, state.lost().phase),
        may_follow(state.phase, state.finished().phase),
        state.phase is Done || state.phase is Failed ==> {
            &&& state.sent() == state
            &&& state.accepted(off, matched) == state
            &&& state.rejected() == state
            &&& state.lost() == state
            &&& state.finished() == state
        },
{
}

/// The first state is consistent, and every step keeps a state consistent
/// and leaves the length of the image and the chunk size as they are.
pub proof fn lemma_steps_keep_consistent(state: UploadState, off: u64, matched: Option<bool>)
    requires
        state.consistent(),
    ensures
        UploadState::initial(state.total_length, state.chunk_size).consistent(),
        state.sent().consistent(),
        state.accepted(off, matched).consistent(),
        state.rejected().consistent(),
        state.lost().consistent(),
        state.finished().consistent(),
        state.accepted(off, matched).total_length == state.total_length,
        state.accepted(off, matched).chunk_size == state.chunk_size,
{
}

/// The device's offset is taken as it is. Whatever offset an upload stands
/// at, an answer with an offset inside the image, before or after that
/// offset, leaves the upload going, and the next chunk starts at the
/// device's offset.
pub proof fn lemma_device_offset_is_taken(state: UploadState, off: u64, matched: Option<bool>)
    requires
        state.phase is Uploading,
        off < state.total_length,
    ensures
        state.accepted(off, matched).phase is Uploading,
        state.accepted(off, matched).offset == off,
        state.accepted(off, matched).wants_chunk(),
{
}

/// An answer with an offset at or beyond the end of the image ends the
/// sending: no chunk is wanted and the outcome can be taken.
pub proof fn lemma_upload_ends_at_length(state: UploadState, off: u64, matched: Option<bool>)
    requires
        state.phase is Uploading,
        off >= state.total_length,
    ensures
        state.accepted(off, matched).phase is Verifying,
        !state.accepted(off, matched).wants_chunk(),
        state.accepted(off, matched).can_finish(),
{
}

/// A failed exchange and an error from the device leave the offset as the
/// device last reported it.
pub proof fn lemma_failure_keeps_offset(state: UploadState)
    ensures
        state.lost().offset == state.offset,
        state.rejected().offset == state.offset,
        state.lost().verified == state.verified,
        state.rejected().verified == state.verified,
{
}

/// A mismatch that the device has reported is not taken back by a later answer.
pub proof fn lemma_mismatch_stays(state: UploadState, off: u64, matched: Option<bool>)
    requires
        state.verified == Some(false),
    ensures
        state.accepted(off, matched).verified == Some(false),
{
}

/// One upload: the writer of its requests and where it stands.
#[derive(Debug, Clone, PartialEq, Eq)]
pub struct ImageUpload {
    /// The writer; its offset is the one that the device last reported.
    pub writer: ImageWriter,
    pub phase: UploadPhase,
    pub chunk_size: usize,
    pub verified: Option<bool>,
    /// The error that the device answered with, where it did.
    pub failure: Option<ErrorPayload>,
}

impl ImageUpload {
    /// Where the upload stands.
    pub open spec fn state(&self) -> UploadState {
        UploadState {
            phase: self.phase,
            offset: self.writer.offset,
            total_length: self.writer.len,
            chunk_size: self.chunk_size,
            verified: self.verified,
        }
    }

    /// Where the upload stands.
    pub fn current(&self) -> (state: UploadState)
        ensures
            state == self.state(),
    {
        UploadState {
            phase: self.phase,
            offset: self.writer.offset,
            total_length: self.writer.len,
            chunk_size: self.chunk_size,
            verified: self.verified,
        }
    }

    /// An upload of an image of `total_length` bytes with this digest.
    pub fn new(
        slot: Option<u8>,
        total_length: usize,
        hash: Option<Vec<u8>>,
        upgrade: bool,
        chunk_size: usize,
    ) -> (upload: ImageUpload)
        ensures
            upload.state() == UploadState::initial(total_length, chunk_size),
            upload.writer == (ImageWriter {
                image: slot,
                offset: 0,
                len: total_length,
                hash,
                upgrade,
                sequence: 0,
            }),
            upload.failure is None,
    {
        ImageUpload {
            writer: ImageWriter::new(slot, total_length, hash, upgrade),
            phase: UploadPhase::NotStarted,
            chunk_size,
            verified: None,
            failure: None,
        }
    }

    /// An upload of `image`, announced with its SHA-256 digest.
    pub fn for_image(image: &[u8], slot: Option<u8>, upgrade: bool, chunk_size: usize) -> (upload:
        ImageUpload)
        ensures
            upload.state() == UploadState::initial(image@.len() as usize, chunk_size),
            upload.writer.image == slot,
            upload.writer.upgrade == upgrade,
            upload.writer.sequence == 0,
            upload.writer.hash_view() == Some(sha256_digest(image@)),
            upload.failure is None,
    {
        let digest = sha256(image);
        ImageUpload::new(slot, image.len(), Some(digest), upgrade, chunk_size)
    }

    /// The request for the next chunk of `image`. There is none where no
    /// chunk is to be sent, or where `image` has not the length that the
    /// upload was made for; the upload is then left as it is.
    pub fn next_request(&mut self, image: &[u8]) -> (r: Option<SmpFrame<WriteImageChunkRequest>>)
        ensures
            old(self).state().wants_chunk() && image@.len() == old(self).writer.len ==> {
                &&& r matches Some(frame)
                &&& frame@ == (SmpFrame {
                    operation: OpCode::WriteRequest,
                    flags: 0,
                    group: Group::ApplicationManagement,
                    sequence: old(self).writer.sequence,
                    command: COMMAND_UPLOAD,
                    data: chunk_request(
                        old(self).writer.image,
                        old(self).writer.len,
                        old(self).writer.hash_view(),
                        old(self).writer.upgrade,
                        old(self).writer.offset,
                        image@.subrange(
                            old(self).writer.offset as int,
                            old(self).state().chunk_end(),
                        ),
                    ),
                })
                &&& final(self).state() == old(self).state().sent()
                &&& final(self).writer == (ImageWriter {
                    sequence: next_sequence(old(self).writer.sequence),
                    ..old(self).writer
                })
                &&& final(self).failure == old(self).failure
            },
            !(old(self).state().wants_chunk() && image@.len() == old(self).writer.len) ==> r
                is None && *final(self) == *old(self),
    {
        if image.len() != self.writer.len {
            return None;
        }
        let state = self.current();
        match state.next_chunk() {
            Some((start, end)) => {
                let frame = self.writer.write_chunk(slice_subrange(image, start, end));
                self.phase = UploadPhase::Uploading;
                Some(frame)
            },
            None => None,
        }
    }

    /// Takes the device's answer to the last request: its offset and its
    /// word on the digest, or its error.
    pub fn handle_response(&mut self, response: WriteImageChunkResult)
        ensures
            final(self).state() == (match response@ {
                Ok((off, matched)) => old(self).state().accepted(off, matched),
                Err(_) => old(self).state().rejected(),
            }),
            final(self).writer == (ImageWriter {
                offset: final(self).state().offset,
                ..old(self).writer
            }),
            (response matches WriteImageChunkResult::Failure(err) && old(self).phase is Uploading)
                ==> final(self).failure == Some(response->Failure_0),
            !(response is Failure && old(self).phase is Uploading) ==> final(self).failure
                == old(self).failure,
    {
        let state = self.current();
        match response {
            WriteImageChunkResult::Success(payload) => {
                let next = state.on_accepted(payload.off, payload.match_);
                self.writer.offset = next.offset;
                self.phase = next.phase;
                self.verified = next.verified;
            },
            WriteImageChunkResult::Failure(err) => {
                let next = state.on_rejected();
                match state.phase {
                    UploadPhase::Uploading => {
                        self.failure = Some(err);
                    },
                    _ => {},
                }
                self.phase = next.phase;
            },
        }
    }

    /// Records that an exchange failed: the upload stops, its offset stays.
    pub fn transport_lost(&mut self)
        ensures
            final(self).state() == old(self).state().lost(),
            final(self).writer == old(self).writer,
            final(self).failure == old(self).failure,
    {
        let next = self.current().on_lost();
        self.phase = next.phase;
    }

    /// Takes the outcome of the upload, once the device has confirmed the
    /// whole image: what the device said of its digest.
    pub fn finish(&mut self) -> (outcome: Option<Verification>)
        ensures
            final(self).state() == old(self).state().finished(),
            final(self).writer == old(self).writer,
            final(self).failure == old(self).failure,
            old(self).state().can_finish() ==> outcome == Some(old(self).state().verification()),
            !old(self).state().can_finish() ==> outcome is None,
    {
        let (next, outcome) = self.current().on_finished();
        self.phase = next.phase;
        outcome
    }
}

} // verus!
