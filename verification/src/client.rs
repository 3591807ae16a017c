//! The commands of a device, each as one exchange over a blocking channel.

use vstd::prelude::*;
use vstd::utf8::encode_utf8;
use crate::application_management::failure::{ErrorPayload, COMMAND_STATE};
use crate::application_management::state::{
    get_state, GetImageStateResult, GetStatePayload, GetStateRequest,
};
use crate::error::Error;
use crate::os_management::{
    echo, reset, EchoRequest, EchoResult, ResetRequest, ResetResult, COMMAND_ECHO, COMMAND_RESET,
};
use crate::record::string_views;
use crate::setting_management::{
    int_setting_bytes, int_setting_value, read_setting, save_setting, text_setting_value,
    write_setting, ReadSettingRequest, ReadSettingResult, SaveSettingRequest, SaveSettingResult,
    WriteSettingRequest, WriteSettingResult, COMMAND_READ_WRITE, COMMAND_SAVE,
};
use crate::shape::lemma_empty_record_bytes;
use crate::shell_management::{shell_command, ShellCommand, ShellResult, COMMAND_EXEC};
use crate::smp::{
    frame_bytes, next_sequence, parse_frame, payload_fits, sequence_after, Group, OpCode, Payload,
    SmpFrame,
};
use crate::transport::{
    exchange, failure_matches, one_round, round_outcome, Channel, ChannelEvent, SmpTransport,
};

verus! {

/// A session with one device: its channel and the sequence number of the
/// next request. Every command makes one exchange and moves the sequence
/// number on by one; an answer with a return code is the device's refusal,
/// an `Error` is the failure of the exchange.
pub struct Client<X: SmpTransport> {
    pub transport: Channel<X>,
    pub sequence: u8,
}

/// The frame of a request: no flags set.
pub open spec fn request_frame<M>(
    operation: OpCode,
    group: Group,
    sequence: u8,
    command: u8,
    data: M,
) -> SmpFrame<M> {
    SmpFrame { operation, flags: 0, group, sequence, command, data }
}

/// What a command does to a session, whatever the channel answers. The
/// sequence number moves on by one. A request that fits a frame makes one
/// round on the channel, with the bytes of the request; one that does not
/// fit leaves the channel as it was.
pub open spec fn has_asked<X: SmpTransport, Req: Payload>(
    before: Client<X>,
    after: Client<X>,
    frame: SmpFrame<Req::V>,
) -> bool {
    &&& after.sequence == next_sequence(before.sequence)
    &&& payload_fits::<Req>(frame.data) ==> one_round(
        before.transport.history(),
        after.transport.history(),
        frame_bytes::<Req>(frame),
        round_outcome(after.transport.history()),
    )
    &&& !payload_fits::<Req>(frame.data) ==> after.transport == before.transport
}

/// The frame that answered the command, read off the channel's history:
/// the frame that the bytes of the last round are, where it handed back
/// bytes and they are a frame of this payload.
pub open spec fn answer_frame<X: SmpTransport, Resp: Payload>(after: Client<X>) -> Option<
    SmpFrame<Resp::V>,
> {
    match round_outcome(after.transport.history()) {
        Ok(bytes) => parse_frame::<Resp>(bytes@),
        Err(_) => None,
    }
}

/// The error that a command fails with: `PayloadTooLarge` where the request
/// does not fit a frame, and else what the last round makes of it: the
/// channel's fault, or `MalformedFrame` where the bytes handed back are no
/// frame of the response's payload.
pub open spec fn has_failed<X: SmpTransport, Req: Payload, Resp: Payload>(
    after: Client<X>,
    data: Req::V,
    error: Error,
) -> bool {
    if payload_fits::<Req>(data) {
        failure_matches::<Resp>(round_outcome(after.transport.history()), error)
    } else {
        error is PayloadTooLarge
    }
}

impl<X: SmpTransport> Client<X> {
    /// A session that starts at sequence number 0, on a channel that has
    /// not been used.
    pub fn new(transport: X) -> (client: Client<X>)
        ensures
            client.sequence == 0,
            client.transport.transport() == transport,
            client.transport.history() == Seq::<ChannelEvent>::empty(),
    {
        Client { transport: Channel::new(transport), sequence: 0 }
    }

    /// The sequence number for the next request.
    fn take_sequence(&mut self) -> (sequence: u8)
        ensures
            sequence == old(self).sequence,
            final(self).sequence == next_sequence(sequence),
            final(self).transport == old(self).transport,
    {
        let sequence = self.sequence;
        self.sequence = sequence_after(sequence);
        sequence
    }

    /// Asks the device to send `message` back.
    pub fn echo(&mut self, message: String) -> (r: Result<Result<String, i32>, Error>)
        ensures
            has_asked::<X, EchoRequest>(
                *old(self),
                *final(self),
                request_frame(
                    OpCode::WriteRequest,
                    Group::Os,
                    old(self).sequence,
                    COMMAND_ECHO,
                    message@,
                ),
            ),
            (r matches Err(e) && e is PayloadTooLarge) <==> !payload_fits::<EchoRequest>(message@),
            r matches Ok(answer) ==> (answer_frame::<X, EchoResult>(*final(self)) matches Some(frame)
                && match answer {
                    Ok(text) => frame.data == Ok::<Seq<char>, i32>(text@),
                    Err(rc) => frame.data == Err::<Seq<char>, i32>(rc),
                }),
            r matches Err(e) ==> has_failed::<X, EchoRequest, EchoResult>(*final(self), message@, e),
    {
        let sequence = self.take_sequence();
        let request = echo(sequence, message);
        let response: SmpFrame<EchoResult> = exchange(&mut self.transport, &request)?;
        Ok(response.data.into_result())
    }

    /// Asks the device to reset.
    pub fn reset(&mut self) -> (r: Result<Result<(), i32>, Error>)
        ensures
            has_asked::<X, ResetRequest>(
                *old(self),
                *final(self),
                request_frame(
                        OpCode::WriteRequest,
                        Group::Os,
                        old(self).sequence,
                        COMMAND_RESET,
                        (),
                ),
            ),
            (r matches Err(e) && e is PayloadTooLarge) <==> !payload_fits::<ResetRequest>(()),
            r matches Ok(answer) ==> (answer_frame::<X, ResetResult>(*final(self)) matches Some(frame)
                && frame.data
                    == answer),
            r matches Err(e) ==> has_failed::<X, ResetRequest, ResetResult>(*final(self), (), e),
    {
        proof {
            lemma_empty_record_bytes();
        }
        let sequence = self.take_sequence();
        let request = reset(sequence);
        let response: SmpFrame<ResetResult> = exchange(&mut self.transport, &request)?;
        Ok(response.data.into_result())
    }

    /// Asks the device to run a command line.
    pub fn shell_exec(&mut self, argv: Vec<String>) -> (r: Result<
        Result<(String, i32), i32>,
        Error,
    >)
        ensures
            has_asked::<X, ShellCommand>(
                *old(self),
                *final(self),
                request_frame(
                    OpCode::WriteRequest,
                    Group::ShellManagement,
                    old(self).sequence,
                    COMMAND_EXEC,
                    string_views(argv@),
                ),
            ),
            (r matches Err(e) && e is PayloadTooLarge) <==> !payload_fits::<ShellCommand>(string_views(argv@)),
            r matches Ok(answer) ==> (answer_frame::<X, ShellResult>(*final(self)) matches Some(frame)
                && match answer {
                    Ok((o, ret)) => frame.data == Ok::<(Seq<char>, i32), i32>((o@, ret)),
                    Err(rc) => frame.data == Err::<(Seq<char>, i32), i32>(rc),
                }),
            r matches Err(e) ==> has_failed::<X, ShellCommand, ShellResult>(*final(self), string_views(argv@), e),
    {
        let sequence = self.take_sequence();
        let request = shell_command(sequence, argv);
        let response: SmpFrame<ShellResult> = exchange(&mut self.transport, &request)?;
        Ok(response.data.into_result())
    }

    /// Asks the device for the state of its images.
    pub fn image_info(&mut self) -> (r: Result<Result<GetStatePayload, ErrorPayload>, Error>)
        ensures
            has_asked::<X, GetStateRequest>(
                *old(self),
                *final(self),
                request_frame(
                        OpCode::ReadRequest,
                        Group::ApplicationManagement,
                        old(self).sequence,
                        COMMAND_STATE,
                        (),
                ),
            ),
            (r matches Err(e) && e is PayloadTooLarge) <==> !payload_fits::<GetStateRequest>(()),
            r matches Ok(answer) ==> (answer_frame::<X, GetImageStateResult>(*final(self)) matches Some(frame)
                && match answer {
                    Ok(state) => frame.data matches Ok(m) && m == state@,
                    Err(err) => frame.data matches Err(e) && e == err@,
                }),
            r matches Err(e) ==> has_failed::<X, GetStateRequest, GetImageStateResult>(*final(self), (), e),
    {
        proof {
            lemma_empty_record_bytes();
        }
        let sequence = self.take_sequence();
        let request = get_state(sequence);
        let response: SmpFrame<GetImageStateResult> = exchange(&mut self.transport, &request)?;
        Ok(response.data.into_result())
    }

    /// Asks the device for the value of a setting.
    pub fn setting_read(&mut self, name: String) -> (r: Result<Result<Vec<u8>, i32>, Error>)
        ensures
            has_asked::<X, ReadSettingRequest>(
                *old(self),
                *final(self),
                request_frame(
                    OpCode::ReadRequest,
                    Group::SettingManagement,
                    old(self).sequence,
                    COMMAND_READ_WRITE,
                    name@,
                ),
            ),
            (r matches Err(e) && e is PayloadTooLarge) <==> !payload_fits::<ReadSettingRequest>(name@),
            r matches Ok(answer) ==> (answer_frame::<X, ReadSettingResult>(*final(self)) matches Some(frame)
                && match answer {
                    Ok(val) => frame.data == Ok::<Seq<u8>, i32>(val@),
                    Err(rc) => frame.data == Err::<Seq<u8>, i32>(rc),
                }),
            r matches Err(e) ==> has_failed::<X, ReadSettingRequest, ReadSettingResult>(*final(self), name@, e),
    {
        let sequence = self.take_sequence();
        let request = read_setting(sequence, name);
        let response: SmpFrame<ReadSettingResult> = exchange(&mut self.transport, &request)?;
        Ok(response.data.into_result())
    }

    /// Asks the device to set a setting to these bytes.
    pub fn setting_write(&mut self, name: String, val: Vec<u8>) -> (r: Result<
        Result<(), i32>,
        Error,
    >)
        ensures
            has_asked::<X, WriteSettingRequest>(
                *old(self),
                *final(self),
                request_frame(
                    OpCode::WriteRequest,
                    Group::SettingManagement,
                    old(self).sequence,
                    COMMAND_READ_WRITE,
                    (name@, val@),
                ),
            ),
            (r matches Err(e) && e is PayloadTooLarge) <==> !payload_fits::<WriteSettingRequest>((name@, val@)),
            r matches Ok(answer) ==> (answer_frame::<X, WriteSettingResult>(*final(self)) matches Some(frame)
                && frame.data == answer),
            r matches Err(e) ==> has_failed::<X, WriteSettingRequest, WriteSettingResult>(*final(self), (name@, val@), e),
    {
        let sequence = self.take_sequence();
        let request = write_setting(sequence, name, val);
        let response: SmpFrame<WriteSettingResult> = exchange(&mut self.transport, &request)?;
        Ok(response.data.into_result())
    }

    /// Asks the device to set a setting to a text: the value is the text's
    /// UTF-8 form.
    pub fn setting_write_text(&mut self, name: String, value: &str) -> (r: Result<
        Result<(), i32>,
        Error,
    >)
        ensures
            has_asked::<X, WriteSettingRequest>(
                *old(self),
                *final(self),
                request_frame(
                    OpCode::WriteRequest,
                    Group::SettingManagement,
                    old(self).sequence,
                    COMMAND_READ_WRITE,
                    (name@, encode_utf8(value@)),
                ),
            ),
            (r matches Err(e) && e is PayloadTooLarge) <==> !payload_fits::<WriteSettingRequest>((name@, encode_utf8(value@))),
            r matches Ok(answer) ==> (answer_frame::<X, WriteSettingResult>(*final(self)) matches Some(frame)
                && frame.data == answer),
            r matches Err(e) ==> has_failed::<X, WriteSettingRequest, WriteSettingResult>(*final(self), (name@, encode_utf8(value@)), e),
    {
        self.setting_write(name, text_setting_value(value))
    }

    /// Asks the device to set a setting to an integer: the value is its
    /// four bytes, least significant first.
    pub fn setting_write_int(&mut self, name: String, value: i32) -> (r: Result<
        Result<(), i32>,
        Error,
    >)
        ensures
            has_asked::<X, WriteSettingRequest>(
                *old(self),
                *final(self),
                request_frame(
                    OpCode::WriteRequest,
                    Group::SettingManagement,
                    old(self).sequence,
                    COMMAND_READ_WRITE,
                    (name@, int_setting_bytes(value)),
                ),
            ),
            (r matches Err(e) && e is PayloadTooLarge) <==> !payload_fits::<WriteSettingRequest>((name@, int_setting_bytes(value))),
            r matches Ok(answer) ==> (answer_frame::<X, WriteSettingResult>(*final(self)) matches Some(frame)
                && frame.data == answer),
            r matches Err(e) ==> has_failed::<X, WriteSettingRequest, WriteSettingResult>(*final(self), (name@, int_setting_bytes(value)), e),
    {
        self.setting_write(name, int_setting_value(value))
    }

    /// Asks the device to save its settings.
    pub fn setting_save(&mut self) -> (r: Result<Result<(), i32>, Error>)
        ensures
            has_asked::<X, SaveSettingRequest>(
                *old(self),
                *final(self),
                request_frame(
                        OpCode::WriteRequest,
                        Group::SettingManagement,
                        old(self).sequence,
                        COMMAND_SAVE,
                        (),
                ),
            ),
            (r matches Err(e) && e is PayloadTooLarge) <==> !payload_fits::<SaveSettingRequest>(()),
            r matches Ok(answer) ==> (answer_frame::<X, SaveSettingResult>(*final(self)) matches Some(frame)
                && frame.data == answer),
            r matches Err(e) ==> has_failed::<X, SaveSettingRequest, SaveSettingResult>(*final(self), (), e),
    {
        proof {
            lemma_empty_record_bytes();
        }
        let sequence = self.take_sequence();
        let request = save_setting(sequence);
        let response: SmpFrame<SaveSettingResult> = exchange(&mut self.transport, &request)?;
        Ok(response.data.into_result())
    }
}

} // verus!
