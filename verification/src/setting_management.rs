//! The settings group: reading, writing and saving configuration settings.

use vstd::prelude::*;
use crate::cbor::value::{Item, Value};
use crate::record::{as_bytes, as_text, bytes_in, text_in, lemma_field_without, Entries};
use crate::shape::{
    empty_record, empty_value, error_in, error_of, error_record, error_value, is_record,
    is_record_value, lemma_error_round_trip, lemma_flat_record, lemma_pair_round_trip,  lemma_single_round_trip, lemma_status_round_trip, lemma_within_deeper,
    pair, pair_in, pair_of, pair_value, single, field_in, field_of, single_value, status_in,
    status_of, status_record, status_success, status_value,
};
use crate::smp::{Group, OpCode, Payload, Response, SmpFrame};

verus! {

/// The command that reads and writes a setting.
pub const COMMAND_READ_WRITE: u8 = 0;

/// The command that saves the settings.
pub const COMMAND_SAVE: u8 = 3;

/// The field names of this group differ from one another.
pub proof fn lemma_setting_keys()
    ensures
        "name"@ != "val"@,
        "val"@ != "rc"@,
{
    reveal_strlit("name");
    reveal_strlit("val");
    reveal_strlit("rc");
    assert("name"@.len() == 4);
    assert("val"@.len() == 3);
    assert("rc"@.len() == 2);
}

/// Asks for the value of a setting.
#[derive(Debug, Clone, PartialEq, Eq)]
pub struct ReadSettingRequest {
    pub name: String,
}

impl View for ReadSettingRequest {
    type V = Seq<char>;

    /// The name of the setting.
    open spec fn view(&self) -> Seq<char> {
        self.name@
    }
}

impl Payload for ReadSettingRequest {
    open spec fn record(m: Seq<char>) -> Item {
        single("name"@, Item::Text(m))
    }

    open spec fn from_record(it: Item) -> Option<Seq<char>> {
        match field_of(it, "name"@) {
            Some(v) => as_text(v),
            None => None,
        }
    }

    proof fn lemma_record_round_trip(m: Seq<char>) {
        lemma_single_round_trip("name"@, Item::Text(m));
        lemma_flat_record(crate::record::one("name"@, Item::Text(m)));
        lemma_within_deeper(Self::record(m), 1, crate::cbor::value::MAX_DEPTH as nat);
    }

    fn to_value(&self) -> (value: Value) {
        single_value("name", Value::Text(self.name.clone()))
    }

    fn from_value(value: &Value) -> (r: Option<Self>) {
        match field_in(value, "name") {
            Some(v) => match text_in(v) {
                Some(name) => Some(ReadSettingRequest { name }),
                None => None,
            },
            None => None,
        }
    }
}

/// The frame that asks for the value of the setting `name`.
pub fn read_setting(sequence: u8, name: String) -> (frame: SmpFrame<ReadSettingRequest>)
    ensures
        frame@ == (SmpFrame {
            operation: OpCode::ReadRequest,
            flags: 0,
            group: Group::SettingManagement,
            sequence,
            command: COMMAND_READ_WRITE,
            data: name@,
        }),
{
    let payload = ReadSettingRequest { name };
    SmpFrame::new(
        OpCode::ReadRequest,
        sequence,
        Group::SettingManagement,
        COMMAND_READ_WRITE,
        payload,
    )
}

/// The answer to a read: the value of the setting, or a return code.
#[derive(Debug, Clone, PartialEq, Eq)]
pub enum ReadSettingResult {
    Success { val: Vec<u8> },
    Failure { rc: i32 },
}

impl View for ReadSettingResult {
    type V = Result<Seq<u8>, i32>;

    open spec fn view(&self) -> Result<Seq<u8>, i32> {
        match self {
            ReadSettingResult::Success { val } => Ok(val@),
            ReadSettingResult::Failure { rc } => Err(*rc),
        }
    }
}

impl ReadSettingResult {
    /// The value of a record that holds `val`, a byte string.
    pub open spec fn success_of(it: Item) -> Option<Seq<u8>> {
        match field_of(it, "val"@) {
            Some(v) => as_bytes(v),
            None => None,
        }
    }

    /// The success, or what the device refused with.
    pub fn into_result(self) -> (r: Result<Vec<u8>, i32>)
        ensures
            match self@ {
                Ok(val) => r matches Ok(v) && v@ == val,
                Err(rc) => r == Err::<Vec<u8>, i32>(rc),
            },
    {
        match self {
            ReadSettingResult::Success { val } => Ok(val),
            ReadSettingResult::Failure { rc } => Err(rc),
        }
    }
}

impl Payload for ReadSettingResult {
    open spec fn record(m: Result<Seq<u8>, i32>) -> Item {
        match m {
            Ok(val) => single("val"@, Item::Bytes(val)),
            Err(rc) => error_record(rc),
        }
    }

    open spec fn from_record(it: Item) -> Option<Result<Seq<u8>, i32>> {
        match Self::success_of(it) {
            Some(val) => Some(Ok(val)),
            None => match error_of(it) {
                Some(rc) => Some(Err(rc)),
                None => None,
            },
        }
    }

    proof fn lemma_record_round_trip(m: Result<Seq<u8>, i32>) {
        lemma_setting_keys();
        match m {
            Ok(val) => {
                lemma_single_round_trip("val"@, Item::Bytes(val));
                lemma_flat_record(crate::record::one("val"@, Item::Bytes(val)));
            },
            Err(rc) => {
                lemma_error_round_trip(rc);
            },
        }
        lemma_within_deeper(Self::record(m), 1, crate::cbor::value::MAX_DEPTH as nat);
    }

    fn to_value(&self) -> (value: Value) {
        match self {
            ReadSettingResult::Success { val } => single_value(
                "val",
                Value::Bytes(vstd::slice::slice_to_vec(val.as_slice())),
            ),
            ReadSettingResult::Failure { rc } => error_value(*rc),
        }
    }

    fn from_value(value: &Value) -> (r: Option<Self>) {
        let success = match field_in(value, "val") {
            Some(v) => bytes_in(v),
            None => None,
        };
        match success {
            Some(val) => Some(ReadSettingResult::Success { val }),
            None => match error_in(value) {
                Some(rc) => Some(ReadSettingResult::Failure { rc }),
                None => None,
            },
        }
    }
}

impl Response for ReadSettingResult {
    open spec fn success_shaped(it: Item) -> bool {
        Self::success_of(it) is Some
    }

    open spec fn error_shaped(it: Item) -> bool {
        !Self::success_shaped(it) && error_of(it) is Some
    }

    open spec fn is_success(m: Result<Seq<u8>, i32>) -> bool {
        m is Ok
    }

    open spec fn knows(key: Seq<char>) -> bool {
        key == "val"@ || key == "rc"@
    }

    proof fn lemma_further_field(before: Entries, key: Seq<char>, item: Item, after: Entries) {
        lemma_field_without(before, key, item, after, "val"@);
        lemma_field_without(before, key, item, after, "rc"@);
    }

    proof fn lemma_two_shapes(it: Item) {
        lemma_setting_keys();
    }
}

/// Asks to set a setting to a value.
#[derive(Debug, Clone, PartialEq, Eq)]
pub struct WriteSettingRequest {
    pub name: String,
    pub val: Vec<u8>,
}

impl View for WriteSettingRequest {
    type V = (Seq<char>, Seq<u8>);

    /// The name of the setting and its new value.
    open spec fn view(&self) -> (Seq<char>, Seq<u8>) {
        (self.name@, self.val@)
    }
}

impl Payload for WriteSettingRequest {
    open spec fn record(m: (Seq<char>, Seq<u8>)) -> Item {
        pair("name"@, Item::Text(m.0), "val"@, Item::Bytes(m.1))
    }

    open spec fn from_record(it: Item) -> Option<(Seq<char>, Seq<u8>)> {
        match pair_of(it, "name"@, "val"@) {
            Some((Item::Text(name), Item::Bytes(val))) => Some((name, val)),
            _ => None,
        }
    }

    proof fn lemma_record_round_trip(m: (Seq<char>, Seq<u8>)) {
        lemma_setting_keys();
        lemma_pair_round_trip("name"@, Item::Text(m.0), "val"@, Item::Bytes(m.1));
        lemma_flat_record(
            crate::record::one("name"@, Item::Text(m.0)) + crate::record::one(
                "val"@,
                Item::Bytes(m.1),
            ),
        );
        lemma_within_deeper(Self::record(m), 1, crate::cbor::value::MAX_DEPTH as nat);
    }

    fn to_value(&self) -> (value: Value) {
        pair_value(
            "name",
            Value::Text(self.name.clone()),
            "val",
            Value::Bytes(vstd::slice::slice_to_vec(self.val.as_slice())),
        )
    }

    fn from_value(value: &Value) -> (r: Option<Self>) {
        match pair_in(value, "name", "val") {
            Some((a, b)) => match (text_in(a), bytes_in(b)) {
                (Some(name), Some(val)) => Some(WriteSettingRequest { name, val }),
                _ => None,
            },
            None => None,
        }
    }
}

/// The frame that asks to set the setting `name` to `val`.
pub fn write_setting(sequence: u8, name: String, val: Vec<u8>) -> (frame: SmpFrame<
    WriteSettingRequest,
>)
    ensures
        frame@ == (SmpFrame {
            operation: OpCode::WriteRequest,
            flags: 0,
            group: Group::SettingManagement,
            sequence,
            command: COMMAND_READ_WRITE,
            data: (name@, val@),
        }),
{
    let payload = WriteSettingRequest { name, val };
    SmpFrame::new(
        OpCode::WriteRequest,
        sequence,
        Group::SettingManagement,
        COMMAND_READ_WRITE,
        payload,
    )
}

/// The four bytes of a signed 32-bit integer in two's complement, least
/// significant first.
pub open spec fn int_setting_bytes(val: i32) -> Seq<u8> {
    let unsigned: int = if val >= 0 {
        val as int
    } else {
        val + 0x1_0000_0000
    };
    seq![
        (unsigned % 0x100) as u8,
        (unsigned / 0x100 % 0x100) as u8,
        (unsigned / 0x1_0000 % 0x100) as u8,
        (unsigned / 0x100_0000 % 0x100) as u8,
    ]
}

/// The value of a setting that holds an integer.
pub fn int_setting_value(val: i32) -> (bytes: Vec<u8>)
    ensures
        bytes@ == int_setting_bytes(val),
{
    let unsigned: u64 = if val >= 0 {
        val as u64
    } else {
        (val as i64 + 0x1_0000_0000) as u64
    };
    let mut bytes: Vec<u8> = Vec::new();
    bytes.push((unsigned % 0x100) as u8);
    bytes.push((unsigned / 0x100 % 0x100) as u8);
    bytes.push((unsigned / 0x1_0000 % 0x100) as u8);
    bytes.push((unsigned / 0x100_0000 % 0x100) as u8);
    assert(bytes@ =~= int_setting_bytes(val));
    bytes
}

/// The value of a setting that holds a text: its UTF-8 form.
pub fn text_setting_value(val: &str) -> (bytes: Vec<u8>)
    ensures
        bytes@ == vstd::utf8::encode_utf8(val@),
{
    vstd::slice::slice_to_vec(val.as_bytes())
}

/// The answer to a write: done, or a return code.
#[derive(Debug, Clone, PartialEq, Eq)]
pub enum WriteSettingResult {
    Success {  },
    Failure { rc: i32 },
}

impl View for WriteSettingResult {
    type V = Result<(), i32>;

    open spec fn view(&self) -> Result<(), i32> {
        match self {
            WriteSettingResult::Success {  } => Ok(()),
            WriteSettingResult::Failure { rc } => Err(*rc),
        }
    }
}

impl WriteSettingResult {
    /// The success, or what the device refused with.
    pub fn into_result(self) -> (r: Result<(), i32>)
        ensures
            r == self@,
    {
        match self {
            WriteSettingResult::Success {  } => Ok(()),
            WriteSettingResult::Failure { rc } => Err(rc),
        }
    }
}

impl Payload for WriteSettingResult {
    open spec fn record(m: Result<(), i32>) -> Item {
        status_record(m)
    }

    open spec fn from_record(it: Item) -> Option<Result<(), i32>> {
        status_of(it)
    }

    proof fn lemma_record_round_trip(m: Result<(), i32>) {
        lemma_status_round_trip(m);
        lemma_within_deeper(Self::record(m), 1, crate::cbor::value::MAX_DEPTH as nat);
    }

    fn to_value(&self) -> (value: Value) {
        match self {
            WriteSettingResult::Success {  } => status_value(Ok(())),
            WriteSettingResult::Failure { rc } => status_value(Err(*rc)),
        }
    }

    fn from_value(value: &Value) -> (r: Option<Self>) {
        match status_in(value) {
            Some(Ok(_)) => Some(WriteSettingResult::Success {  }),
            Some(Err(rc)) => Some(WriteSettingResult::Failure { rc }),
            None => None,
        }
    }
}

impl Response for WriteSettingResult {
    open spec fn success_shaped(it: Item) -> bool {
        status_success(it)
    }

    open spec fn error_shaped(it: Item) -> bool {
        !Self::success_shaped(it) && error_of(it) is Some
    }

    open spec fn is_success(m: Result<(), i32>) -> bool {
        m is Ok
    }

    open spec fn knows(key: Seq<char>) -> bool {
        key == "rc"@
    }

    proof fn lemma_further_field(before: Entries, key: Seq<char>, item: Item, after: Entries) {
        lemma_field_without(before, key, item, after, "rc"@);
    }

    proof fn lemma_two_shapes(it: Item) {
    }
}

/// Asks to save the settings.
#[derive(Debug, Clone, PartialEq, Eq)]
pub struct SaveSettingRequest {}

impl View for SaveSettingRequest {
    type V = ();

    open spec fn view(&self) -> () {
        ()
    }
}

impl Payload for SaveSettingRequest {
    open spec fn record(m: ()) -> Item {
        empty_record()
    }

    open spec fn from_record(it: Item) -> Option<()> {
        if is_record(it) {
            Some(())
        } else {
            None
        }
    }

    proof fn lemma_record_round_trip(m: ()) {
        lemma_flat_record(Seq::empty());
        lemma_within_deeper(Self::record(m), 1, crate::cbor::value::MAX_DEPTH as nat);
    }

    fn to_value(&self) -> (value: Value) {
        empty_value()
    }

    fn from_value(value: &Value) -> (r: Option<Self>) {
        if is_record_value(value) {
            Some(SaveSettingRequest {  })
        } else {
            None
        }
    }
}

/// The frame that asks to save the settings.
pub fn save_setting(sequence: u8) -> (frame: SmpFrame<SaveSettingRequest>)
    ensures
        frame@ == (SmpFrame {
            operation: OpCode::WriteRequest,
            flags: 0,
            group: Group::SettingManagement,
            sequence,
            command: COMMAND_SAVE,
            data: (),
        }),
{
    let payload = SaveSettingRequest {  };
    SmpFrame::new(OpCode::WriteRequest, sequence, Group::SettingManagement, COMMAND_SAVE, payload)
}

/// The answer to a save: done, or a return code.
#[derive(Debug, Clone, PartialEq, Eq)]
pub enum SaveSettingResult {
    Success {  },
    Failure { rc: i32 },
}

impl View for SaveSettingResult {
    type V = Result<(), i32>;

    open spec fn view(&self) -> Result<(), i32> {
        match self {
            SaveSettingResult::Success {  } => Ok(()),
            SaveSettingResult::Failure { rc } => Err(*rc),
        }
    }
}

impl SaveSettingResult {
    /// The success, or what the device refused with.
    pub fn into_result(self) -> (r: Result<(), i32>)
        ensures
            r == self@,
    {
        match self {
            SaveSettingResult::Success {  } => Ok(()),
            SaveSettingResult::Failure { rc } => Err(rc),
        }
    }
}

impl Payload for SaveSettingResult {
    open spec fn record(m: Result<(), i32>) -> Item {
        status_record(m)
    }

    open spec fn from_record(it: Item) -> Option<Result<(), i32>> {
        status_of(it)
    }

    proof fn lemma_record_round_trip(m: Result<(), i32>) {
        lemma_status_round_trip(m);
        lemma_within_deeper(Self::record(m), 1, crate::cbor::value::MAX_DEPTH as nat);
    }

    fn to_value(&self) -> (value: Value) {
        match self {
            SaveSettingResult::Success {  } => status_value(Ok(())),
            SaveSettingResult::Failure { rc } => status_value(Err(*rc)),
        }
    }

    fn from_value(value: &Value) -> (r: Option<Self>) {
        match status_in(value) {
            Some(Ok(_)) => Some(SaveSettingResult::Success {  }),
            Some(Err(rc)) => Some(SaveSettingResult::Failure { rc }),
            None => None,
        }
    }
}

impl Response for SaveSettingResult {
    open spec fn success_shaped(it: Item) -> bool {
        status_success(it)
    }

    open spec fn error_shaped(it: Item) -> bool {
        !Self::success_shaped(it) && error_of(it) is Some
    }

    open spec fn is_success(m: Result<(), i32>) -> bool {
        m is Ok
    }

    open spec fn knows(key: Seq<char>) -> bool {
        key == "rc"@
    }

    proof fn lemma_further_field(before: Entries, key: Seq<char>, item: Item, after: Entries) {
        lemma_field_without(before, key, item, after, "rc"@);
    }

    proof fn lemma_two_shapes(it: Item) {
    }
}

} // verus!
