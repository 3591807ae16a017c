use mcumgr_smp::application_management::{
    get_state, ErrorPayload, GetImageStateResult, GetStatePayload, GetStateRequest, ImageState,
    WriteImageChunkPayload, WriteImageChunkRequest, WriteImageChunkResult,
};
use mcumgr_smp::cbor::decode::decode;
use mcumgr_smp::cbor::encode::encode;
use mcumgr_smp::cbor::value::Value;
use mcumgr_smp::error::Error;
use mcumgr_smp::os_management::{echo, reset, EchoRequest, EchoResult, ResetRequest, ResetResult};
use mcumgr_smp::setting_management::{
    int_setting_value, text_setting_value, ReadSettingRequest, ReadSettingResult,
    SaveSettingRequest, SaveSettingResult, WriteSettingRequest, WriteSettingResult,
};
use mcumgr_smp::shell_management::{shell_command, ShellCommand, ShellResult};
use mcumgr_smp::smp::{Group, OpCode, Payload, SmpFrame};

fn text(s: &str) -> Value {
    Value::Text(s.to_string())
}

fn map(entries: Vec<(&str, Value)>) -> Value {
    Value::TextMap(entries.into_iter().map(|(k, v)| (k.to_string(), v)).collect())
}

fn back<T: Payload + PartialEq + std::fmt::Debug>(payload: T) {
    let value = payload.to_value();
    assert_eq!(T::from_value(&value), Some(payload));
    let bytes = encode(&value);
    assert_eq!(decode(&bytes), Some(value));
}

#[test]
fn echo_builds_a_write_request_in_group_zero() {
    let frame = echo(42, "hi".to_string());
    assert_eq!(frame.operation, OpCode::WriteRequest);
    assert_eq!(frame.group, Group::Os);
    assert_eq!(frame.command, 0);
    assert_eq!(frame.sequence, 42);
    assert_eq!(frame.flags, 0);
    assert_eq!(frame.data, EchoRequest { d: "hi".to_string() });
}

#[test]
fn reset_builds_command_five_with_no_fields() {
    let frame = reset(1);
    assert_eq!(frame.operation, OpCode::WriteRequest);
    assert_eq!(frame.group, Group::Os);
    assert_eq!(frame.command, 5);
    assert_eq!(frame.encode_with_cbor().unwrap(), vec![2, 0, 0, 1, 0, 0, 1, 5, 0xa0]);
}

#[test]
fn shell_command_carries_the_words_in_order() {
    let frame = shell_command(3, vec!["ls".to_string(), "-l".to_string()]);
    assert_eq!(frame.operation, OpCode::WriteRequest);
    assert_eq!(frame.group, Group::ShellManagement);
    assert_eq!(frame.command, 0);
    assert_eq!(frame.data.argv, vec!["ls".to_string(), "-l".to_string()]);
    assert_eq!(
        frame.encode_with_cbor().unwrap(),
        vec![
            2, 0, 0, 13, 0, 9, 3, 0, 0xa1, 0x64, b'a', b'r', b'g', b'v', 0x82, 0x62, b'l', b's',
            0x62, b'-', b'l'
        ]
    );
    let empty = shell_command(3, vec![]);
    assert_eq!(
        empty.encode_with_cbor().unwrap(),
        vec![2, 0, 0, 7, 0, 9, 3, 0, 0xa1, 0x64, b'a', b'r', b'g', b'v', 0x80]
    );
}

#[test]
fn get_state_builds_a_read_request_in_group_one() {
    let frame = get_state(8);
    assert_eq!(frame.operation, OpCode::ReadRequest);
    assert_eq!(frame.group, Group::ApplicationManagement);
    assert_eq!(frame.command, 0);
    assert_eq!(frame.encode_with_cbor().unwrap(), vec![0, 0, 0, 1, 0, 1, 8, 0, 0xa0]);
}

#[test]
fn records_of_the_requests() {
    assert_eq!(EchoRequest { d: "x".to_string() }.to_value(), map(vec![("d", text("x"))]));
    assert_eq!(ResetRequest {}.to_value(), map(vec![]));
    assert_eq!(SaveSettingRequest {}.to_value(), map(vec![]));
    assert_eq!(GetStateRequest {}.to_value(), map(vec![]));
    assert_eq!(
        ReadSettingRequest { name: "a/b".to_string() }.to_value(),
        map(vec![("name", text("a/b"))])
    );
    assert_eq!(
        WriteSettingRequest { name: "n".to_string(), val: vec![9] }.to_value(),
        map(vec![("name", text("n")), ("val", Value::Bytes(vec![9]))])
    );
    assert_eq!(
        ShellCommand { argv: vec!["a".to_string()] }.to_value(),
        map(vec![("argv", Value::Array(vec![text("a")]))])
    );
}

#[test]
fn records_of_the_results() {
    assert_eq!(EchoResult::Success { r: "x".to_string() }.to_value(), map(vec![("r", text("x"))]));
    assert_eq!(EchoResult::Failure { rc: 3 }.to_value(), map(vec![("rc", Value::Unsigned(3))]));
    assert_eq!(EchoResult::Failure { rc: -3 }.to_value(), map(vec![("rc", Value::Negative(2))]));
    assert_eq!(ResetResult::Success {}.to_value(), map(vec![]));
    assert_eq!(WriteSettingResult::Success {}.to_value(), map(vec![]));
    assert_eq!(SaveSettingResult::Failure { rc: 0 }.to_value(), map(vec![("rc", Value::Unsigned(0))]));
    assert_eq!(
        ReadSettingResult::Success { val: vec![1, 2] }.to_value(),
        map(vec![("val", Value::Bytes(vec![1, 2]))])
    );
    assert_eq!(
        ShellResult::Success { o: "out".to_string(), ret: -1 }.to_value(),
        map(vec![("o", text("out")), ("ret", Value::Negative(0))])
    );
    assert_eq!(
        WriteImageChunkResult::Success(WriteImageChunkPayload { off: 256, match_: None }).to_value(),
        map(vec![("off", Value::Unsigned(256))])
    );
    assert_eq!(
        WriteImageChunkResult::Success(WriteImageChunkPayload { off: 600, match_: Some(true) })
            .to_value(),
        map(vec![("off", Value::Unsigned(600)), ("match", Value::Bool(true))])
    );
    assert_eq!(
        WriteImageChunkResult::Failure(ErrorPayload { rc: 3, rsn: Some("bad".to_string()) })
            .to_value(),
        map(vec![("rc", Value::Unsigned(3)), ("rsn", text("bad"))])
    );
    assert_eq!(
        GetImageStateResult::Failure(ErrorPayload { rc: -5, rsn: None }).to_value(),
        map(vec![("rc", Value::Negative(4))])
    );
}

fn image(slot: u32) -> ImageState {
    ImageState {
        image: None,
        slot,
        version: "1.0.0".to_string(),
        hash: Some(vec![0xaa; 32]),
        bootable: true,
        pending: false,
        confirmed: slot == 0,
        active: slot == 0,
        permanent: false,
    }
}

#[test]
fn every_payload_is_read_back_from_its_record() {
    back(EchoRequest { d: String::new() });
    back(EchoRequest { d: "gr\u{fc}n".to_string() });
    back(EchoResult::Success { r: "hi".to_string() });
    back(EchoResult::Failure { rc: i32::MIN });
    back(EchoResult::Failure { rc: i32::MAX });
    back(ResetRequest {});
    back(ResetResult::Success {});
    back(ResetResult::Failure { rc: 8 });
    back(ShellCommand { argv: vec![] });
    back(ShellCommand { argv: vec!["kernel".to_string(), "uptime".to_string()] });
    back(ShellResult::Success { o: "42\n".to_string(), ret: 0 });
    back(ShellResult::Success { o: String::new(), ret: i32::MIN });
    back(ShellResult::Failure { rc: -2 });
    back(ReadSettingRequest { name: "foo".to_string() });
    back(ReadSettingResult::Success { val: vec![] });
    back(ReadSettingResult::Success { val: vec![1, 2, 3, 4] });
    back(ReadSettingResult::Failure { rc: -2 });
    back(WriteSettingRequest { name: "foo".to_string(), val: vec![1, 2, 3, 4] });
    back(WriteSettingResult::Success {});
    back(WriteSettingResult::Failure { rc: 1 });
    back(SaveSettingRequest {});
    back(SaveSettingResult::Success {});
    back(SaveSettingResult::Failure { rc: 1 });
    back(GetStateRequest {});
    back(GetImageStateResult::Success(GetStatePayload { images: vec![], split_status: None }));
    back(GetImageStateResult::Success(GetStatePayload {
        images: vec![image(0), image(1)],
        split_status: Some(-1),
    }));
    back(GetImageStateResult::Success(GetStatePayload {
        images: vec![ImageState { image: Some(1), hash: None, ..image(3) }],
        split_status: Some(0),
    }));
    back(GetImageStateResult::Failure(ErrorPayload { rc: 2, rsn: None }));
    back(GetImageStateResult::Failure(ErrorPayload { rc: 2, rsn: Some("no image".to_string()) }));
    back(WriteImageChunkRequest {
        image: Some(1),
        len: Some(600),
        off: 0,
        sha: Some(vec![1; 32]),
        data: vec![2; 256],
        upgrade: Some(true),
    });
    back(WriteImageChunkRequest {
        image: None,
        len: None,
        off: 256,
        sha: None,
        data: vec![2; 256],
        upgrade: None,
    });
    back(WriteImageChunkResult::Success(WriteImageChunkPayload { off: 0, match_: None }));
    back(WriteImageChunkResult::Success(WriteImageChunkPayload { off: u64::MAX, match_: Some(false) }));
    back(WriteImageChunkResult::Failure(ErrorPayload { rc: -1, rsn: Some(String::new()) }));
}

#[test]
fn a_success_is_never_read_as_an_error_nor_an_error_as_a_success() {
    let error = map(vec![("rc", Value::Negative(1))]);
    assert_eq!(EchoResult::from_value(&error), Some(EchoResult::Failure { rc: -2 }));
    assert_eq!(ResetResult::from_value(&error), Some(ResetResult::Failure { rc: -2 }));
    assert_eq!(ShellResult::from_value(&error), Some(ShellResult::Failure { rc: -2 }));
    assert_eq!(ReadSettingResult::from_value(&error), Some(ReadSettingResult::Failure { rc: -2 }));
    assert_eq!(WriteSettingResult::from_value(&error), Some(WriteSettingResult::Failure { rc: -2 }));
    assert_eq!(SaveSettingResult::from_value(&error), Some(SaveSettingResult::Failure { rc: -2 }));
    assert_eq!(
        GetImageStateResult::from_value(&error),
        Some(GetImageStateResult::Failure(ErrorPayload { rc: -2, rsn: None }))
    );
    assert_eq!(
        WriteImageChunkResult::from_value(&error),
        Some(WriteImageChunkResult::Failure(ErrorPayload { rc: -2, rsn: None }))
    );
    let empty = map(vec![]);
    assert_eq!(ResetResult::from_value(&empty), Some(ResetResult::Success {}));
    assert_eq!(WriteSettingResult::from_value(&empty), Some(WriteSettingResult::Success {}));
    assert_eq!(SaveSettingResult::from_value(&empty), Some(SaveSettingResult::Success {}));
    assert_eq!(EchoResult::from_value(&empty), None);
    assert_eq!(ShellResult::from_value(&empty), None);
    assert_eq!(ReadSettingResult::from_value(&empty), None);
    assert_eq!(GetImageStateResult::from_value(&empty), None);
    assert_eq!(WriteImageChunkResult::from_value(&empty), None);
}

#[test]
fn a_record_that_could_be_read_either_way_is_a_success() {
    let both = map(vec![("r", text("hi")), ("rc", Value::Unsigned(0))]);
    assert_eq!(EchoResult::from_value(&both), Some(EchoResult::Success { r: "hi".to_string() }));
    let both = map(vec![("rc", Value::Unsigned(0)), ("val", Value::Bytes(vec![1]))]);
    assert_eq!(
        ReadSettingResult::from_value(&both),
        Some(ReadSettingResult::Success { val: vec![1] })
    );
    let both = map(vec![("off", Value::Unsigned(5)), ("rc", Value::Unsigned(0))]);
    assert_eq!(
        WriteImageChunkResult::from_value(&both),
        Some(WriteImageChunkResult::Success(WriteImageChunkPayload { off: 5, match_: None }))
    );
    let both = map(vec![("rc", Value::Unsigned(0)), ("off", Value::Unsigned(5))]);
    assert_eq!(
        WriteImageChunkResult::from_value(&both),
        Some(WriteImageChunkResult::Success(WriteImageChunkPayload { off: 5, match_: None }))
    );
    let both = map(vec![("images", Value::Array(vec![])), ("rc", Value::Unsigned(0))]);
    assert_eq!(
        GetImageStateResult::from_value(&both),
        Some(GetImageStateResult::Success(GetStatePayload { images: vec![], split_status: None }))
    );
    let both = map(vec![("o", text("")), ("ret", Value::Unsigned(0)), ("rc", Value::Unsigned(3))]);
    assert_eq!(
        ShellResult::from_value(&both),
        Some(ShellResult::Success { o: String::new(), ret: 0 })
    );
}

#[test]
fn a_success_field_of_another_type_leaves_the_error() {
    let value = map(vec![("val", text("no bytes")), ("rc", Value::Negative(1))]);
    assert_eq!(ReadSettingResult::from_value(&value), Some(ReadSettingResult::Failure { rc: -2 }));
    let value = map(vec![("off", text("x")), ("rc", Value::Unsigned(7))]);
    assert_eq!(
        WriteImageChunkResult::from_value(&value),
        Some(WriteImageChunkResult::Failure(ErrorPayload { rc: 7, rsn: None }))
    );
    let value = map(vec![("off", Value::Unsigned(1)), ("match", text("x")), ("rc", Value::Unsigned(7))]);
    assert_eq!(
        WriteImageChunkResult::from_value(&value),
        Some(WriteImageChunkResult::Failure(ErrorPayload { rc: 7, rsn: None }))
    );
}

#[test]
fn fields_of_neither_shape_are_passed_over() {
    let value = map(vec![("val", Value::Bytes(vec![1, 2])), ("ts", Value::Unsigned(99))]);
    let read = ReadSettingResult::from_value(&value).unwrap();
    assert_eq!(read, ReadSettingResult::Success { val: vec![1, 2] });
    assert_eq!(read.into_result(), Ok(vec![1, 2]));
    let value = map(vec![("ts", Value::Unsigned(99)), ("rc", Value::Negative(1))]);
    let read = ReadSettingResult::from_value(&value).unwrap();
    assert_eq!(read, ReadSettingResult::Failure { rc: -2 });
    assert_eq!(read.into_result(), Err(-2));
    let value = map(vec![("ts", Value::Array(vec![Value::Null]))]);
    assert_eq!(WriteSettingResult::from_value(&value), Some(WriteSettingResult::Success {}));
    assert_eq!(SaveSettingResult::from_value(&value), Some(SaveSettingResult::Success {}));
    assert_eq!(ResetResult::from_value(&value), Some(ResetResult::Success {}));
    assert_eq!(ReadSettingResult::from_value(&value), None);
    let value = map(vec![("ts", Value::Unsigned(1)), ("rc", Value::Unsigned(5))]);
    assert_eq!(WriteSettingResult::from_value(&value), Some(WriteSettingResult::Failure { rc: 5 }));
    assert_eq!(SaveSettingResult::from_value(&value), Some(SaveSettingResult::Failure { rc: 5 }));
    assert_eq!(ResetResult::from_value(&value), Some(ResetResult::Failure { rc: 5 }));
    assert_eq!(EchoResult::from_value(&value), Some(EchoResult::Failure { rc: 5 }));
    assert_eq!(ShellResult::from_value(&value), Some(ShellResult::Failure { rc: 5 }));
    assert_eq!(
        GetImageStateResult::from_value(&value),
        Some(GetImageStateResult::Failure(ErrorPayload { rc: 5, rsn: None }))
    );
    let value = map(vec![("d", text("a")), ("e", text("b"))]);
    assert_eq!(EchoRequest::from_value(&value), Some(EchoRequest { d: "a".to_string() }));
    assert_eq!(ResetRequest::from_value(&value), Some(ResetRequest {}));
    let value = map(vec![
        ("version", text("2.0")),
        ("slot", Value::Unsigned(1)),
        ("colour", Value::Unsigned(1)),
    ]);
    assert_eq!(ImageState::from_value(&value).unwrap().slot, 1);
}

#[test]
fn a_return_code_that_is_no_integer_is_no_error() {
    let value = map(vec![("rc", text("bad"))]);
    assert_eq!(WriteSettingResult::from_value(&value), None);
    assert_eq!(ReadSettingResult::from_value(&value), None);
    assert_eq!(WriteImageChunkResult::from_value(&value), None);
    let value = map(vec![("rc", Value::Unsigned(0x8000_0000))]);
    assert_eq!(ResetResult::from_value(&value), None);
    assert_eq!(ResetResult::from_value(&Value::Array(vec![])), None);
    assert_eq!(ResetResult::from_value(&Value::Null), None);
    assert_eq!(ResetRequest::from_value(&Value::Unsigned(0)), None);
}

#[test]
fn of_a_field_that_stands_twice_the_first_is_read() {
    let twice = map(vec![("d", text("a")), ("d", text("b"))]);
    assert_eq!(EchoRequest::from_value(&twice), Some(EchoRequest { d: "a".to_string() }));
    let twice = map(vec![("off", Value::Unsigned(1)), ("off", Value::Unsigned(2))]);
    assert_eq!(
        WriteImageChunkResult::from_value(&twice),
        Some(WriteImageChunkResult::Success(WriteImageChunkPayload { off: 1, match_: None }))
    );
    let twice = map(vec![
        ("version", text("2.0")),
        ("slot", Value::Unsigned(1)),
        ("slot", Value::Unsigned(2)),
    ]);
    assert_eq!(ImageState::from_value(&twice).unwrap().slot, 1);
}

#[test]
fn fields_are_found_in_any_order() {
    let value = map(vec![("ret", Value::Unsigned(7)), ("o", text("out"))]);
    assert_eq!(
        ShellResult::from_value(&value),
        Some(ShellResult::Success { o: "out".to_string(), ret: 7 })
    );
    let value = map(vec![("val", Value::Bytes(vec![5])), ("name", text("n"))]);
    assert_eq!(
        WriteSettingRequest::from_value(&value),
        Some(WriteSettingRequest { name: "n".to_string(), val: vec![5] })
    );
    let value = map(vec![("match", Value::Bool(false)), ("off", Value::Unsigned(9))]);
    assert_eq!(
        WriteImageChunkResult::from_value(&value),
        Some(WriteImageChunkResult::Success(WriteImageChunkPayload { off: 9, match_: Some(false) }))
    );
    let value = map(vec![("rsn", text("why")), ("rc", Value::Unsigned(9))]);
    assert_eq!(
        GetImageStateResult::from_value(&value),
        Some(GetImageStateResult::Failure(ErrorPayload { rc: 9, rsn: Some("why".to_string()) }))
    );
}

#[test]
fn a_field_of_another_type_is_refused() {
    let wrong = map(vec![("d", Value::Bytes(vec![b'a']))]);
    assert_eq!(EchoRequest::from_value(&wrong), None);
    assert_eq!(EchoRequest::from_value(&Value::Array(vec![])), None);
    assert_eq!(EchoRequest::from_value(&Value::Null), None);
    let wrong = map(vec![("off", Value::Negative(1))]);
    assert_eq!(WriteImageChunkResult::from_value(&wrong), None);
    let wrong = map(vec![("off", Value::Unsigned(1)), ("match", Value::Unsigned(1))]);
    assert_eq!(WriteImageChunkResult::from_value(&wrong), None);
    let wrong = map(vec![("rc", Value::Unsigned(1)), ("rsn", Value::Unsigned(1))]);
    assert_eq!(WriteImageChunkResult::from_value(&wrong), None);
    let wrong = map(vec![("argv", Value::Array(vec![text("a"), Value::Unsigned(1)]))]);
    assert_eq!(ShellCommand::from_value(&wrong), None);
    let wrong = map(vec![("argv", text("ls"))]);
    assert_eq!(ShellCommand::from_value(&wrong), None);
    let wrong = map(vec![("o", text("")), ("ret", Value::Unsigned(0x8000_0000))]);
    assert_eq!(ShellResult::from_value(&wrong), None);
}

#[test]
fn a_slot_descriptor_without_flags_has_them_false() {
    let value = map(vec![("version", text("2.0")), ("slot", Value::Unsigned(1))]);
    assert_eq!(
        ImageState::from_value(&value),
        Some(ImageState {
            image: None,
            slot: 1,
            version: "2.0".to_string(),
            hash: None,
            bootable: false,
            pending: false,
            confirmed: false,
            active: false,
            permanent: false,
        })
    );
    let value = map(vec![
        ("permanent", Value::Bool(true)),
        ("slot", Value::Unsigned(1)),
        ("image", Value::Unsigned(2)),
        ("version", text("2.0")),
        ("pending", Value::Bool(true)),
    ]);
    let state = ImageState::from_value(&value).unwrap();
    assert_eq!(state.image, Some(2));
    assert!(state.permanent && state.pending);
    assert!(!state.bootable && !state.confirmed && !state.active);
}

#[test]
fn a_slot_descriptor_is_written_in_a_fixed_order() {
    let value = image(0).to_value();
    assert_eq!(
        value,
        map(vec![
            ("slot", Value::Unsigned(0)),
            ("version", text("1.0.0")),
            ("hash", Value::Bytes(vec![0xaa; 32])),
            ("bootable", Value::Bool(true)),
            ("pending", Value::Bool(false)),
            ("confirmed", Value::Bool(true)),
            ("active", Value::Bool(true)),
            ("permanent", Value::Bool(false)),
        ])
    );
    let value = ImageState { image: Some(4), hash: None, ..image(1) }.to_value();
    assert_eq!(
        value,
        map(vec![
            ("image", Value::Unsigned(4)),
            ("slot", Value::Unsigned(1)),
            ("version", text("1.0.0")),
            ("bootable", Value::Bool(true)),
            ("pending", Value::Bool(false)),
            ("confirmed", Value::Bool(false)),
            ("active", Value::Bool(false)),
            ("permanent", Value::Bool(false)),
        ])
    );
}

#[test]
fn a_slot_descriptor_that_is_none_is_refused() {
    let no_slot = map(vec![("version", text("2.0"))]);
    assert_eq!(ImageState::from_value(&no_slot), None);
    let no_version = map(vec![("slot", Value::Unsigned(1))]);
    assert_eq!(ImageState::from_value(&no_version), None);
    let big_slot = map(vec![("version", text("2.0")), ("slot", Value::Unsigned(0x1_0000_0000))]);
    assert_eq!(ImageState::from_value(&big_slot), None);
    let bad_flag = map(vec![
        ("version", text("2.0")),
        ("slot", Value::Unsigned(1)),
        ("active", Value::Unsigned(1)),
    ]);
    assert_eq!(ImageState::from_value(&bad_flag), None);
    let state = map(vec![("images", Value::Array(vec![no_slot]))]);
    assert_eq!(GetStatePayload::from_value(&state), None);
    assert_eq!(GetImageStateResult::from_value(&state), None);
}

#[test]
fn the_state_of_the_images_through_a_frame() {
    let result = GetImageStateResult::Success(GetStatePayload {
        images: vec![image(0), image(1)],
        split_status: Some(0),
    });
    let frame = SmpFrame::new(OpCode::ReadResponse, 8, Group::ApplicationManagement, 0, result);
    let bytes = frame.encode_with_cbor().unwrap();
    let read: SmpFrame<GetImageStateResult> = SmpFrame::decode_with_cbor(&bytes).unwrap();
    assert_eq!(read, frame);
    match read.data.into_result() {
        Ok(state) => {
            assert_eq!(state.images.len(), 2);
            assert_eq!(state.images[1].slot, 1);
            assert_eq!(state.split_status, Some(0));
        }
        Err(_) => panic!("a success was read as an error"),
    }
    let as_chunk: Result<SmpFrame<WriteImageChunkResult>, Error> = SmpFrame::decode_with_cbor(&bytes);
    assert_eq!(as_chunk, Err(Error::MalformedFrame));
}

#[test]
fn into_result_of_the_other_results() {
    assert_eq!(EchoResult::Success { r: "a".to_string() }.into_result(), Ok("a".to_string()));
    assert_eq!(EchoResult::Failure { rc: 4 }.into_result(), Err(4));
    assert_eq!(ResetResult::Success {}.into_result(), Ok(()));
    assert_eq!(ResetResult::Failure { rc: 4 }.into_result(), Err(4));
    assert_eq!(
        ShellResult::Success { o: "a".to_string(), ret: 2 }.into_result(),
        Ok(("a".to_string(), 2))
    );
    assert_eq!(ShellResult::Failure { rc: 4 }.into_result(), Err(4));
    let payload = WriteImageChunkPayload { off: 3, match_: Some(true) };
    assert_eq!(WriteImageChunkResult::Success(payload.clone()).into_result(), Ok(payload));
    let err = ErrorPayload { rc: 1, rsn: None };
    assert_eq!(WriteImageChunkResult::Failure(err.clone()).into_result(), Err(err.clone()));
    assert_eq!(GetImageStateResult::Failure(err.clone()).into_result(), Err(err));
    let state = GetStatePayload { images: vec![], split_status: None };
    assert_eq!(GetImageStateResult::Success(state.clone()).into_result(), Ok(state));
}

#[test]
fn values_of_settings() {
    assert_eq!(int_setting_value(1), vec![1, 0, 0, 0]);
    assert_eq!(int_setting_value(0), vec![0, 0, 0, 0]);
    assert_eq!(int_setting_value(-1), vec![255, 255, 255, 255]);
    assert_eq!(int_setting_value(0x1234_5678), vec![0x78, 0x56, 0x34, 0x12]);
    assert_eq!(int_setting_value(i32::MIN), vec![0, 0, 0, 0x80]);
    assert_eq!(int_setting_value(i32::MAX), vec![0xff, 0xff, 0xff, 0x7f]);
    for value in [-70000, -2, 255, 256, 65536, 1 << 30] {
        assert_eq!(int_setting_value(value), value.to_le_bytes().to_vec());
    }
    assert_eq!(text_setting_value("abc"), vec![b'a', b'b', b'c']);
    assert_eq!(text_setting_value(""), Vec::<u8>::new());
    assert_eq!(text_setting_value("\u{e9}"), vec![0xc3, 0xa9]);
}
