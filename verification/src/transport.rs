//! The exchange with a device: one frame out, one frame back.

use vstd::prelude::*;
use crate::error::Error;
use crate::smp::{frame_bytes, parse_frame, payload_fits, Payload, SmpFrame};

verus! {

/// What a channel reports when it cannot deliver.
#[derive(Debug, Clone, PartialEq, Eq)]
pub enum TransportFault {
    /// Nothing arrived within the configured time.
    Timeout,
    /// The channel failed; the text is its cause.
    Failure(String),
}

/// A channel that carries whole frames.
pub trait SmpTransport {
    /// Hands one frame to the channel.
    fn send(&mut self, frame: &[u8]) -> Result<(), TransportFault>;

    /// Waits for one frame, no longer than the channel's configured time.
    fn receive(&mut self) -> Result<Vec<u8>, TransportFault>;
}

/// One use of a channel, with what came of it.
pub enum ChannelEvent {
    /// A frame was handed to the channel.
    Sent { frame: Seq<u8>, outcome: Result<(), TransportFault> },
    /// A frame was waited for.
    Waited { answer: Result<Vec<u8>, TransportFault> },
}

/// A channel together with the history of its use: every frame that was
/// handed to it and every wait for a frame, in order, each with what the
/// channel answered. The channel is used through this handle alone, so the
/// history leaves nothing out.
pub struct Channel<X: SmpTransport> {
    inner: X,
    log: Ghost<Seq<ChannelEvent>>,
}

impl<X: SmpTransport> Channel<X> {
    /// What has been asked of the channel through this handle, first to last.
    pub closed spec fn history(&self) -> Seq<ChannelEvent> {
        self.log@
    }

    /// The channel itself.
    pub closed spec fn transport(&self) -> X {
        self.inner
    }

    /// A handle on `inner` with an empty history.
    pub fn new(inner: X) -> (channel: Channel<X>)
        ensures
            channel.history() == Seq::<ChannelEvent>::empty(),
            channel.transport() == inner,
    {
        Channel { inner, log: Ghost(Seq::empty()) }
    }

    /// The channel, to look at.
    pub fn inner(&self) -> (inner: &X)
        ensures
            *inner == self.transport(),
    {
        &self.inner
    }

    /// The channel, given back.
    pub fn into_inner(self) -> (inner: X)
        ensures
            inner == self.transport(),
    {
        self.inner
    }

    /// Hands one frame to the channel, and notes it.
    pub fn send(&mut self, frame: &[u8]) -> (r: Result<(), TransportFault>)
        ensures
            final(self).history() == old(self).history().push(
                ChannelEvent::Sent { frame: frame@, outcome: r },
            ),
    {
        let r = self.inner.send(frame);
        proof {
            self.log@ = self.log@.push(ChannelEvent::Sent { frame: frame@, outcome: r });
        }
        r
    }

    /// Waits for one frame, and notes it.
    pub fn receive(&mut self) -> (r: Result<Vec<u8>, TransportFault>)
        ensures
            final(self).history() == old(self).history().push(ChannelEvent::Waited { answer: r }),
    {
        let r = self.inner.receive();
        proof {
            self.log@ = self.log@.push(ChannelEvent::Waited { answer: r });
        }
        r
    }
}

/// The error that a fault of the channel is reported as.
pub open spec fn fault_matches(fault: TransportFault, error: Error) -> bool {
    match fault {
        TransportFault::Timeout => error is Timeout,
        TransportFault::Failure(cause) => error matches Error::TransportFailure(text) && text@
            == cause@,
    }
}

/// The error that a fault of the channel is reported as.
pub fn fault_error(fault: TransportFault) -> (error: Error)
    ensures
        fault_matches(fault, error),
{
    match fault {
        TransportFault::Timeout => Error::Timeout,
        TransportFault::Failure(cause) => Error::TransportFailure(cause),
    }
}

/// The error that an exchange fails with, given what the channel handed
/// back: `MalformedFrame` where the bytes are no frame of this payload, and
/// the channel's fault where it handed back no bytes.
pub open spec fn failure_matches<Resp: Payload>(
    received: Result<Vec<u8>, TransportFault>,
    error: Error,
) -> bool {
    match received {
        Ok(bytes) => parse_frame::<Resp>(bytes@) is None && error is MalformedFrame,
        Err(fault) => fault_matches(fault, error),
    }
}

/// What an exchange comes to, given what the channel handed back: the frame
/// that the bytes are, and else the error of `failure_matches`.
pub open spec fn response_matches<Resp: Payload>(
    received: Result<Vec<u8>, TransportFault>,
    r: Result<SmpFrame<Resp>, Error>,
) -> bool {
    match r {
        Ok(f) => received matches Ok(bytes) && parse_frame::<Resp>(bytes@) == Some(f@),
        Err(e) => failure_matches::<Resp>(received, e),
    }
}

/// Reads the response out of what the channel handed back.
pub fn read_response<Resp: Payload>(received: Result<Vec<u8>, TransportFault>) -> (r: Result<
    SmpFrame<Resp>,
    Error,
>)
    ensures
        response_matches::<Resp>(received, r),
{
    match received {
        Ok(bytes) => SmpFrame::<Resp>::decode_with_cbor(bytes.as_slice()),
        Err(fault) => Err(fault_error(fault)),
    }
}

/// The channel has been used for one round that handed back `r`: `bytes`
/// were handed to it once; where that failed, nothing more was asked of it
/// and `r` is the fault; where it went through, a frame was waited for once
/// and `r` is what came of the wait.
pub open spec fn one_round(
    before: Seq<ChannelEvent>,
    after: Seq<ChannelEvent>,
    bytes: Seq<u8>,
    r: Result<Vec<u8>, TransportFault>,
) -> bool {
    ||| r matches Err(fault) && after == before.push(
        ChannelEvent::Sent { frame: bytes, outcome: Err(fault) },
    )
    ||| after == before.push(ChannelEvent::Sent { frame: bytes, outcome: Ok(()) }).push(
        ChannelEvent::Waited { answer: r },
    )
}

/// What the last round handed back, read off the history: the outcome of
/// the wait, or the fault of the send that failed.
pub open spec fn round_outcome(after: Seq<ChannelEvent>) -> Result<Vec<u8>, TransportFault> {
    match after.last() {
        ChannelEvent::Waited { answer } => answer,
        ChannelEvent::Sent { outcome: Err(fault), .. } => Err(fault),
        ChannelEvent::Sent { .. } => Err(TransportFault::Timeout),
    }
}

/// After one round, the history ends with what the round handed back.
pub proof fn lemma_round_outcome(
    before: Seq<ChannelEvent>,
    after: Seq<ChannelEvent>,
    bytes: Seq<u8>,
    r: Result<Vec<u8>, TransportFault>,
)
    requires
        one_round(before, after, bytes, r),
    ensures
        round_outcome(after) == r,
        after.len() > before.len(),
{
}

/// Sends one frame and waits for one frame: exactly one send, and exactly
/// one receive where the send went through. Nothing is tried a second time.
pub fn transceive<X: SmpTransport>(channel: &mut Channel<X>, frame: &[u8]) -> (r: Result<
    Vec<u8>,
    TransportFault,
>)
    ensures
        one_round(old(channel).history(), final(channel).history(), frame@, r),
{
    let sent = channel.send(frame);
    let ghost noted = channel.history();
    match sent {
        Ok(unit) => {
            assert(sent == Ok::<(), TransportFault>(()));
            let r = channel.receive();
            assert(channel.history() == noted.push(ChannelEvent::Waited { answer: r }));
            r
        },
        Err(fault) => Err(fault),
    }
}

/// Sends a request and reads the response to it: one round with the bytes
/// of the request, and the response read out of what the round handed back.
/// A request that is too large for a frame is not sent, and the channel is
/// left as it was. The sequence number of the response is not held against
/// the request's: with one request under way, the next frame is its
/// response.
pub fn exchange<X: SmpTransport, Req: Payload, Resp: Payload>(
    channel: &mut Channel<X>,
    frame: &SmpFrame<Req>,
) -> (r: Result<SmpFrame<Resp>, Error>)
    ensures
        payload_fits::<Req>(frame.data@) ==> {
            &&& one_round(
                old(channel).history(),
                final(channel).history(),
                frame_bytes::<Req>(frame@),
                round_outcome(final(channel).history()),
            )
            &&& response_matches::<Resp>(round_outcome(final(channel).history()), r)
        },
        !payload_fits::<Req>(frame.data@) ==> {
            &&& *final(channel) == *old(channel)
            &&& r matches Err(e)
            &&& e is PayloadTooLarge
        },
{
    let bytes = match frame.encode_with_cbor() {
        Ok(bytes) => bytes,
        Err(e) => {
            return Err(e);
        },
    };
    let received = transceive(channel, bytes.as_slice());
    proof {
        lemma_round_outcome(
            old(channel).history(),
            channel.history(),
            frame_bytes::<Req>(frame@),
            received,
        );
    }
    read_response::<Resp>(received)
}

} // verus!
