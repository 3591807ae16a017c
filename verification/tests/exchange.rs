use mcumgr_smp::application_management::{
    ErrorPayload, GetImageStateResult, GetStatePayload, GetStateRequest, ImageState,
    WriteImageChunkPayload, WriteImageChunkRequest, WriteImageChunkResult,
};
use mcumgr_smp::client::Client;
use mcumgr_smp::error::Error;
use mcumgr_smp::os_management::{echo, EchoRequest, EchoResult, ResetRequest, ResetResult};
use mcumgr_smp::setting_management::{
    read_setting, save_setting, write_setting, ReadSettingRequest, ReadSettingResult,
    SaveSettingRequest, SaveSettingResult, WriteSettingRequest, WriteSettingResult,
};
use mcumgr_smp::shell_management::{ShellCommand, ShellResult};
use mcumgr_smp::smp::{Group, OpCode, Payload, SmpFrame};
use mcumgr_smp::transport::{
    exchange, fault_error, read_response, transceive, Channel, SmpTransport, TransportFault,
};
use mcumgr_smp::upload::{ImageUpload, UploadPhase, Verification};

/// A device in memory: it answers each frame that is sent to it.
struct Device {
    settings: Vec<(String, Vec<u8>)>,
    saved: Vec<(String, Vec<u8>)>,
    flash: Vec<u8>,
    expected: usize,
    lose_at: Option<usize>,
    offsets: Vec<u64>,
    sequences: Vec<u8>,
    answer: Option<Vec<u8>>,
    sent: usize,
    received: usize,
}

impl Device {
    fn new() -> Device {
        Device {
            settings: Vec::new(),
            saved: Vec::new(),
            flash: Vec::new(),
            expected: 0,
            lose_at: None,
            offsets: Vec::new(),
            sequences: Vec::new(),
            answer: None,
            sent: 0,
            received: 0,
        }
    }

    fn respond<T: Payload>(request: &[u8], data: T) -> Vec<u8> {
        let operation = OpCode::from_byte(request[0]).unwrap().response().unwrap();
        let group = Group::from_id(u16::from(request[4]) * 256 + u16::from(request[5]));
        SmpFrame::new(operation, request[6], group, request[7], data).encode_with_cbor().unwrap()
    }

    fn handle(&mut self, request: &[u8]) -> Vec<u8> {
        let group = u16::from(request[4]) * 256 + u16::from(request[5]);
        let write = request[0] == 2;
        self.sequences.push(request[6]);
        match (group, request[7], write) {
            (0, 0, true) => {
                let frame: SmpFrame<EchoRequest> = SmpFrame::decode_with_cbor(request).unwrap();
                Device::respond(request, EchoResult::Success { r: frame.data.d })
            }
            (0, 5, true) => {
                let _: SmpFrame<ResetRequest> = SmpFrame::decode_with_cbor(request).unwrap();
                Device::respond(request, ResetResult::Success {})
            }
            (9, 0, true) => {
                let frame: SmpFrame<ShellCommand> = SmpFrame::decode_with_cbor(request).unwrap();
                if frame.data.argv.is_empty() {
                    Device::respond(request, ShellResult::Failure { rc: 3 })
                } else {
                    Device::respond(
                        request,
                        ShellResult::Success { o: frame.data.argv.join(" "), ret: frame.data.argv.len() as i32 },
                    )
                }
            }
            (3, 0, false) => {
                let frame: SmpFrame<ReadSettingRequest> = SmpFrame::decode_with_cbor(request).unwrap();
                match self.settings.iter().find(|(name, _)| *name == frame.data.name) {
                    Some((_, val)) => Device::respond(request, ReadSettingResult::Success { val: val.clone() }),
                    None => Device::respond(request, ReadSettingResult::Failure { rc: -2 }),
                }
            }
            (3, 0, true) => {
                let frame: SmpFrame<WriteSettingRequest> = SmpFrame::decode_with_cbor(request).unwrap();
                self.settings.retain(|(name, _)| *name != frame.data.name);
                self.settings.push((frame.data.name, frame.data.val));
                Device::respond(request, WriteSettingResult::Success {})
            }
            (3, 3, true) => {
                let _: SmpFrame<SaveSettingRequest> = SmpFrame::decode_with_cbor(request).unwrap();
                self.saved = self.settings.clone();
                Device::respond(request, SaveSettingResult::Success {})
            }
            (1, 0, false) => {
                let _: SmpFrame<GetStateRequest> = SmpFrame::decode_with_cbor(request).unwrap();
                let image = ImageState {
                    image: None,
                    slot: 0,
                    version: "1.2.3".to_string(),
                    hash: Some(vec![1; 32]),
                    bootable: true,
                    pending: false,
                    confirmed: true,
                    active: true,
                    permanent: false,
                };
                Device::respond(
                    request,
                    GetImageStateResult::Success(GetStatePayload { images: vec![image], split_status: None }),
                )
            }
            (1, 1, true) => {
                let frame: SmpFrame<WriteImageChunkRequest> = SmpFrame::decode_with_cbor(request).unwrap();
                let chunk = frame.data;
                self.offsets.push(chunk.off);
                if chunk.off == 0 {
                    match chunk.len {
                        Some(len) => self.expected = len as usize,
                        None => {
                            let err = ErrorPayload { rc: 3, rsn: Some("no length".to_string()) };
                            return Device::respond(request, WriteImageChunkResult::Failure(err));
                        }
                    }
                    self.flash.clear();
                }
                if chunk.off as usize != self.flash.len() {
                    let err = ErrorPayload { rc: 3, rsn: None };
                    return Device::respond(request, WriteImageChunkResult::Failure(err));
                }
                self.flash.extend_from_slice(&chunk.data);
                if self.lose_at == Some(self.offsets.len()) {
                    let keep = self.flash.len() / 4;
                    self.flash.truncate(keep);
                }
                let done = self.flash.len() >= self.expected;
                let payload = WriteImageChunkPayload {
                    off: self.flash.len() as u64,
                    match_: if done { Some(true) } else { None },
                };
                Device::respond(request, WriteImageChunkResult::Success(payload))
            }
            _ => Device::respond(request, ResetResult::Failure { rc: 8 }),
        }
    }
}

impl SmpTransport for Device {
    fn send(&mut self, frame: &[u8]) -> Result<(), TransportFault> {
        self.sent += 1;
        let answer = self.handle(frame);
        self.answer = Some(answer);
        Ok(())
    }

    fn receive(&mut self) -> Result<Vec<u8>, TransportFault> {
        self.received += 1;
        match self.answer.take() {
            Some(answer) => Ok(answer),
            None => Err(TransportFault::Timeout),
        }
    }
}

/// A channel that takes every frame and never hands one back.
struct Silent {
    sent: Vec<Vec<u8>>,
    received: usize,
}

impl SmpTransport for Silent {
    fn send(&mut self, frame: &[u8]) -> Result<(), TransportFault> {
        self.sent.push(frame.to_vec());
        Ok(())
    }

    fn receive(&mut self) -> Result<Vec<u8>, TransportFault> {
        self.received += 1;
        Err(TransportFault::Timeout)
    }
}

/// A channel that is broken in one of its two directions, or that answers
/// with fixed bytes.
struct Scripted {
    send: Result<(), TransportFault>,
    receive: Result<Vec<u8>, TransportFault>,
    sent: usize,
    received: usize,
}

impl SmpTransport for Scripted {
    fn send(&mut self, _frame: &[u8]) -> Result<(), TransportFault> {
        self.sent += 1;
        self.send.clone()
    }

    fn receive(&mut self) -> Result<Vec<u8>, TransportFault> {
        self.received += 1;
        self.receive.clone()
    }
}

#[test]
fn scenario_echo() {
    let mut device = Channel::new(Device::new());
    let response: SmpFrame<EchoResult> = exchange(&mut device, &echo(42, "hi".to_string())).unwrap();
    assert_eq!(response.data, EchoResult::Success { r: "hi".to_string() });
    assert_eq!(response.sequence, 42);
    assert_eq!(response.operation, OpCode::WriteResponse);
    assert_eq!(response.group, Group::Os);
    assert_eq!(response.data.into_result(), Ok("hi".to_string()));
    assert_eq!((device.inner().sent, device.inner().received), (1, 1));
}

#[test]
fn scenario_setting_round_trip() {
    let mut device = Channel::new(Device::new());
    let written: SmpFrame<WriteSettingResult> =
        exchange(&mut device, &write_setting(1, "foo".to_string(), vec![1, 2, 3, 4])).unwrap();
    assert_eq!(written.data.into_result(), Ok(()));
    let saved: SmpFrame<SaveSettingResult> = exchange(&mut device, &save_setting(2)).unwrap();
    assert_eq!(saved.data.into_result(), Ok(()));
    let read: SmpFrame<ReadSettingResult> =
        exchange(&mut device, &read_setting(3, "foo".to_string())).unwrap();
    assert_eq!(read.data, ReadSettingResult::Success { val: vec![1, 2, 3, 4] });
    assert_eq!(read.data.into_result(), Ok(vec![1, 2, 3, 4]));
    assert_eq!(device.inner().saved, vec![("foo".to_string(), vec![1, 2, 3, 4])]);
    assert_eq!((device.inner().sent, device.inner().received), (3, 3));
}

#[test]
fn scenario_device_error() {
    let mut device = Channel::new(Device::new());
    let read: SmpFrame<ReadSettingResult> =
        exchange(&mut device, &read_setting(3, "missing".to_string())).unwrap();
    assert_eq!(read.data, ReadSettingResult::Failure { rc: -2 });
    assert_eq!(read.data.into_result(), Err(-2));
    assert_eq!((device.inner().sent, device.inner().received), (1, 1));
    let mut client = Client::new(Device::new());
    assert_eq!(client.setting_read("missing".to_string()), Ok(Err(-2)));
    assert_eq!((client.transport.inner().sent, client.transport.inner().received), (1, 1));
}

#[test]
fn scenario_timeout() {
    let mut channel = Channel::new(Silent { sent: Vec::new(), received: 0 });
    let response: Result<SmpFrame<EchoResult>, Error> =
        exchange(&mut channel, &echo(42, "hi".to_string()));
    assert_eq!(response, Err(Error::Timeout));
    assert_eq!(channel.inner().sent.len(), 1);
    assert_eq!(channel.inner().sent[0], echo(42, "hi".to_string()).encode_with_cbor().unwrap());
    assert_eq!(channel.inner().received, 1);
}

#[test]
fn a_fault_of_the_channel_is_handed_on_with_its_cause() {
    let mut channel = Channel::new(Scripted {
        send: Ok(()),
        receive: Err(TransportFault::Failure("unplugged".to_string())),
        sent: 0,
        received: 0,
    });
    let response: Result<SmpFrame<EchoResult>, Error> =
        exchange(&mut channel, &echo(1, "hi".to_string()));
    assert_eq!(response, Err(Error::TransportFailure("unplugged".to_string())));
    assert_eq!((channel.inner().sent, channel.inner().received), (1, 1));
}

#[test]
fn nothing_is_received_after_a_failed_send() {
    let mut channel = Channel::new(Scripted {
        send: Err(TransportFault::Failure("no route".to_string())),
        receive: Ok(vec![]),
        sent: 0,
        received: 0,
    });
    let response: Result<SmpFrame<EchoResult>, Error> =
        exchange(&mut channel, &echo(1, "hi".to_string()));
    assert_eq!(response, Err(Error::TransportFailure("no route".to_string())));
    assert_eq!((channel.inner().sent, channel.inner().received), (1, 0));
    assert_eq!(transceive(&mut channel, &[1]), Err(TransportFault::Failure("no route".to_string())));
    assert_eq!((channel.inner().sent, channel.inner().received), (2, 0));
    let mut channel = Channel::new(Scripted {
        send: Err(TransportFault::Timeout),
        receive: Ok(vec![]),
        sent: 0,
        received: 0,
    });
    let response: Result<SmpFrame<EchoResult>, Error> =
        exchange(&mut channel, &echo(1, "hi".to_string()));
    assert_eq!(response, Err(Error::Timeout));
    assert_eq!((channel.inner().sent, channel.inner().received), (1, 0));
}

#[test]
fn a_request_too_large_is_not_sent() {
    let mut channel = Channel::new(Silent { sent: Vec::new(), received: 0 });
    let response: Result<SmpFrame<EchoResult>, Error> =
        exchange(&mut channel, &echo(1, "x".repeat(70_000)));
    assert_eq!(response, Err(Error::PayloadTooLarge));
    assert_eq!(channel.inner().sent.len(), 0);
    assert_eq!(channel.inner().received, 0);
}

#[test]
fn an_answer_that_is_no_frame_is_malformed() {
    for bytes in [vec![], vec![3, 0, 0, 0], vec![3, 0, 0, 1, 0, 0, 1, 0, 0xa0], vec![9; 20]] {
        let mut channel = Channel::new(Scripted { send: Ok(()), receive: Ok(bytes), sent: 0, received: 0 });
        let response: Result<SmpFrame<EchoResult>, Error> =
            exchange(&mut channel, &echo(1, "hi".to_string()));
        assert_eq!(response, Err(Error::MalformedFrame));
        assert_eq!((channel.inner().sent, channel.inner().received), (1, 1));
    }
}

#[test]
fn the_sequence_number_of_the_answer_is_not_held_against_the_request() {
    let answer = SmpFrame::new(OpCode::WriteResponse, 7, Group::Os, 0, EchoResult::Success { r: "x".to_string() })
        .encode_with_cbor()
        .unwrap();
    let mut channel = Channel::new(Scripted { send: Ok(()), receive: Ok(answer), sent: 0, received: 0 });
    let response: SmpFrame<EchoResult> = exchange(&mut channel, &echo(42, "hi".to_string())).unwrap();
    assert_eq!(response.sequence, 7);
    assert_eq!(response.data, EchoResult::Success { r: "x".to_string() });
}

#[test]
fn read_response_for_each_outcome() {
    let good = SmpFrame::new(OpCode::WriteResponse, 7, Group::Os, 5, ResetResult::Success {});
    let r: Result<SmpFrame<ResetResult>, Error> = read_response(Ok(good.encode_with_cbor().unwrap()));
    assert_eq!(r, Ok(good));
    let r: Result<SmpFrame<ResetResult>, Error> = read_response(Ok(vec![1, 2, 3]));
    assert_eq!(r, Err(Error::MalformedFrame));
    let r: Result<SmpFrame<ResetResult>, Error> = read_response(Err(TransportFault::Timeout));
    assert_eq!(r, Err(Error::Timeout));
    let r: Result<SmpFrame<ResetResult>, Error> =
        read_response(Err(TransportFault::Failure("x".to_string())));
    assert_eq!(r, Err(Error::TransportFailure("x".to_string())));
    assert_eq!(fault_error(TransportFault::Timeout), Error::Timeout);
    assert_eq!(
        fault_error(TransportFault::Failure("y".to_string())),
        Error::TransportFailure("y".to_string())
    );
}

#[test]
fn the_commands_of_a_session() {
    let mut client = Client::new(Device::new());
    assert_eq!(client.sequence, 0);
    assert_eq!(client.echo("hi".to_string()), Ok(Ok("hi".to_string())));
    assert_eq!(client.reset(), Ok(Ok(())));
    assert_eq!(
        client.shell_exec(vec!["kernel".to_string(), "uptime".to_string()]),
        Ok(Ok(("kernel uptime".to_string(), 2)))
    );
    assert_eq!(client.shell_exec(vec![]), Ok(Err(3)));
    assert_eq!(client.setting_write("a".to_string(), vec![9]), Ok(Ok(())));
    assert_eq!(client.setting_write_text("b".to_string(), "text"), Ok(Ok(())));
    assert_eq!(client.setting_write_int("c".to_string(), -2), Ok(Ok(())));
    assert_eq!(client.setting_save(), Ok(Ok(())));
    assert_eq!(client.setting_read("a".to_string()), Ok(Ok(vec![9])));
    assert_eq!(client.setting_read("b".to_string()), Ok(Ok(b"text".to_vec())));
    assert_eq!(client.setting_read("c".to_string()), Ok(Ok(vec![0xfe, 0xff, 0xff, 0xff])));
    assert_eq!(client.setting_read("d".to_string()), Ok(Err(-2)));
    let state = client.image_info().unwrap().unwrap();
    assert_eq!(state.images.len(), 1);
    assert_eq!(state.images[0].version, "1.2.3");
    assert_eq!(client.sequence, 13);
    assert_eq!(client.transport.inner().sequences, (0..13).collect::<Vec<u8>>());
    assert_eq!((client.transport.inner().sent, client.transport.inner().received), (13, 13));
}

#[test]
fn a_session_counts_on_after_a_failed_exchange_and_wraps() {
    let mut client = Client::new(Silent { sent: Vec::new(), received: 0 });
    client.sequence = 254;
    assert_eq!(client.echo("a".to_string()), Err(Error::Timeout));
    assert_eq!(client.sequence, 255);
    assert_eq!(client.reset(), Err(Error::Timeout));
    assert_eq!(client.sequence, 0);
    assert_eq!(client.setting_save(), Err(Error::Timeout));
    assert_eq!(client.image_info(), Err(Error::Timeout));
    assert_eq!(client.shell_exec(vec![]), Err(Error::Timeout));
    assert_eq!(client.setting_read("a".to_string()), Err(Error::Timeout));
    assert_eq!(client.setting_write_int("a".to_string(), 1), Err(Error::Timeout));
    assert_eq!(client.setting_write_text("a".to_string(), "b"), Err(Error::Timeout));
    assert_eq!(client.sequence, 6);
    let sequences: Vec<u8> = client.transport.inner().sent.iter().map(|frame| frame[6]).collect();
    assert_eq!(sequences, vec![254, 255, 0, 1, 2, 3, 4, 5]);
}

fn upload_over(device: &mut Channel<Device>, firmware: &[u8], chunk_size: usize) -> ImageUpload {
    let mut upload = ImageUpload::for_image(firmware, Some(1), false, chunk_size);
    let mut rounds = 0;
    while let Some(request) = upload.next_request(firmware) {
        rounds += 1;
        assert!(rounds < 100);
        let response: Result<SmpFrame<WriteImageChunkResult>, Error> = exchange(device, &request);
        match response {
            Ok(frame) => upload.handle_response(frame.data),
            Err(_) => upload.transport_lost(),
        }
    }
    upload
}

#[test]
fn an_upload_over_a_channel() {
    let firmware: Vec<u8> = (0..600).map(|i| (i % 7) as u8).collect();
    let mut device = Channel::new(Device::new());
    let mut upload = upload_over(&mut device, &firmware, 256);
    assert_eq!(device.inner().offsets, vec![0, 256, 512]);
    assert_eq!(device.inner().flash, firmware);
    assert_eq!(upload.writer.offset, 600);
    assert_eq!(upload.finish(), Some(Verification::Verified));
}

#[test]
fn an_upload_over_a_channel_to_a_device_that_loses_data() {
    let firmware: Vec<u8> = (0..600).map(|i| (i % 7) as u8).collect();
    let mut lossy = Device::new();
    lossy.lose_at = Some(2);
    let mut device = Channel::new(lossy);
    let mut upload = upload_over(&mut device, &firmware, 256);
    // after the second chunk the device held 512 bytes and kept 128
    assert_eq!(device.inner().offsets, vec![0, 256, 128, 384]);
    assert_eq!(device.inner().flash, firmware);
    assert_eq!(upload.phase, UploadPhase::Verifying);
    assert_eq!(upload.finish(), Some(Verification::Verified));
}

#[test]
fn an_upload_stops_at_a_device_error() {
    let firmware = vec![5u8; 600];
    let mut device = Channel::new(Device::new());
    let mut upload = ImageUpload::for_image(&firmware, None, false, 256);
    let first = upload.next_request(&firmware).unwrap();
    let response: SmpFrame<WriteImageChunkResult> = exchange(&mut device, &first).unwrap();
    upload.handle_response(response.data);
    // the device forgets everything; the next chunk does not fit
    let mut forgetful = device.into_inner();
    forgetful.flash.clear();
    let mut device = Channel::new(forgetful);
    let second = upload.next_request(&firmware).unwrap();
    let response: SmpFrame<WriteImageChunkResult> = exchange(&mut device, &second).unwrap();
    upload.handle_response(response.data);
    assert_eq!(upload.phase, UploadPhase::Failed);
    assert_eq!(upload.failure, Some(ErrorPayload { rc: 3, rsn: None }));
    assert_eq!(upload.next_request(&firmware), None);
    assert_eq!(device.inner().sent, 2);
    assert_eq!(device.inner().offsets, vec![0, 256]);
}

#[test]
fn an_upload_stops_at_a_timeout() {
    let firmware = vec![5u8; 600];
    let mut channel = Channel::new(Silent { sent: Vec::new(), received: 0 });
    let mut upload = ImageUpload::for_image(&firmware, None, false, 256);
    let first = upload.next_request(&firmware).unwrap();
    let response: Result<SmpFrame<WriteImageChunkResult>, Error> = exchange(&mut channel, &first);
    assert_eq!(response, Err(Error::Timeout));
    upload.transport_lost();
    assert_eq!(upload.phase, UploadPhase::Failed);
    assert_eq!(upload.writer.offset, 0);
    assert_eq!(upload.next_request(&firmware), None);
    assert_eq!(channel.inner().sent.len(), 1);
}


#[test]
fn a_command_too_large_is_not_sent_and_the_session_counts_on() {
    let mut client = Client::new(Silent { sent: Vec::new(), received: 0 });
    assert_eq!(client.echo("x".repeat(70_000)), Err(Error::PayloadTooLarge));
    assert_eq!(client.setting_read("x".repeat(70_000)), Err(Error::PayloadTooLarge));
    assert_eq!(client.setting_write("a".to_string(), vec![0; 70_000]), Err(Error::PayloadTooLarge));
    assert_eq!(
        client.setting_write_text("a".to_string(), &"x".repeat(70_000)),
        Err(Error::PayloadTooLarge)
    );
    assert_eq!(client.shell_exec(vec!["x".repeat(70_000)]), Err(Error::PayloadTooLarge));
    assert_eq!(client.transport.inner().sent.len(), 0);
    assert_eq!(client.transport.inner().received, 0);
    assert_eq!(client.sequence, 5);
    assert_eq!(client.setting_write_int("a".to_string(), 7), Err(Error::Timeout));
    assert_eq!(client.transport.inner().sent.len(), 1);
    assert_eq!(
        client.transport.inner().sent[0],
        write_setting(5, "a".to_string(), vec![7, 0, 0, 0]).encode_with_cbor().unwrap()
    );
    assert_eq!(client.reset(), Err(Error::Timeout));
    assert_eq!(client.transport.inner().sent[1], vec![2, 0, 0, 1, 0, 0, 6, 5, 0xa0]);
    assert_eq!(client.transport.inner().received, 2);
}

#[test]
fn a_channel_is_handed_back_as_it_is() {
    let mut channel = Channel::new(Silent { sent: Vec::new(), received: 0 });
    assert_eq!(channel.send(&[1, 2]), Ok(()));
    assert_eq!(channel.receive(), Err(TransportFault::Timeout));
    assert_eq!(channel.inner().sent, vec![vec![1, 2]]);
    let silent = channel.into_inner();
    assert_eq!(silent.received, 1);
}
