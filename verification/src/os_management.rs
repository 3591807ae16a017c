//! The group of the operating system: echo and reset.

use vstd::prelude::*;
use crate::cbor::value::{Item, Value, MAX_DEPTH};
use crate::record::{as_text, one, text_in, lemma_field_without, Entries};
use crate::shape::{
    empty_record, empty_value, error_in, error_of, error_record, error_value, is_record,
    is_record_value, lemma_error_round_trip, lemma_flat_record, 
    lemma_single_round_trip, lemma_status_round_trip, lemma_within_deeper, single, field_in,
    field_of, single_value, status_in, status_of, status_record, status_success, status_value,
};
use crate::smp::{Group, OpCode, Payload, Response, SmpFrame};

verus! {

/// The command that echoes a text.
pub const COMMAND_ECHO: u8 = 0;

/// The command that resets the device.
pub const COMMAND_RESET: u8 = 5;

/// The field names of this group differ from one another.
pub proof fn lemma_os_keys()
    ensures
        "d"@ != "r"@,
        "r"@ != "rc"@,
{
    reveal_strlit("d");
    reveal_strlit("r");
    reveal_strlit("rc");
    assert("d"@.len() == 1);
    assert("r"@.len() == 1);
    assert("rc"@.len() == 2);
    assert("d"@[0] == 'd');
    assert("r"@[0] == 'r');
}

/// Asks the device to send a text back.
#[derive(Debug, Clone, PartialEq, Eq)]
pub struct EchoRequest {
    pub d: String,
}

impl View for EchoRequest {
    type V = Seq<char>;

    /// The text to send back.
    open spec fn view(&self) -> Seq<char> {
        self.d@
    }
}

impl Payload for EchoRequest {
    open spec fn record(m: Seq<char>) -> Item {
        single("d"@, Item::Text(m))
    }

    open spec fn from_record(it: Item) -> Option<Seq<char>> {
        match field_of(it, "d"@) {
            Some(v) => as_text(v),
            None => None,
        }
    }

    proof fn lemma_record_round_trip(m: Seq<char>) {
        lemma_single_round_trip("d"@, Item::Text(m));
        lemma_flat_record(one("d"@, Item::Text(m)));
        lemma_within_deeper(Self::record(m), 1, MAX_DEPTH as nat);
    }

    fn to_value(&self) -> (value: Value) {
        single_value("d", Value::Text(self.d.clone()))
    }

    fn from_value(value: &Value) -> (r: Option<Self>) {
        match field_in(value, "d") {
            Some(v) => match text_in(v) {
                Some(d) => Some(EchoRequest { d }),
                None => None,
            },
            None => None,
        }
    }
}

/// The frame that asks the device to send `msg` back.
pub fn echo(sequence: u8, msg: String) -> (frame: SmpFrame<EchoRequest>)
    ensures
        frame@ == (SmpFrame {
            operation: OpCode::WriteRequest,
            flags: 0,
            group: Group::Os,
            sequence,
            command: COMMAND_ECHO,
            data: msg@,
        }),
{
    SmpFrame::new(OpCode::WriteRequest, sequence, Group::Os, COMMAND_ECHO, EchoRequest { d: msg })
}

/// The answer to an echo: the text, or a return code.
#[derive(Debug, Clone, PartialEq, Eq)]
pub enum EchoResult {
    Success { r: String },
    Failure { rc: i32 },
}

impl View for EchoResult {
    type V = Result<Seq<char>, i32>;

    open spec fn view(&self) -> Result<Seq<char>, i32> {
        match self {
            EchoResult::Success { r } => Ok(r@),
            EchoResult::Failure { rc } => Err(*rc),
        }
    }
}

impl EchoResult {
    /// The text of a record that holds `r`, a text.
    pub open spec fn success_of(it: Item) -> Option<Seq<char>> {
        match field_of(it, "r"@) {
            Some(v) => as_text(v),
            None => None,
        }
    }

    /// The success, or what the device refused with.
    pub fn into_result(self) -> (r: Result<String, i32>)
        ensures
            match self@ {
                Ok(text) => r matches Ok(t) && t@ == text,
                Err(rc) => r == Err::<String, i32>(rc),
            },
    {
        match self {
            EchoResult::Success { r } => Ok(r),
            EchoResult::Failure { rc } => Err(rc),
        }
    }
}

impl Payload for EchoResult {
    open spec fn record(m: Result<Seq<char>, i32>) -> Item {
        match m {
            Ok(text) => single("r"@, Item::Text(text)),
            Err(rc) => error_record(rc),
        }
    }

    open spec fn from_record(it: Item) -> Option<Result<Seq<char>, i32>> {
        match Self::success_of(it) {
            Some(text) => Some(Ok(text)),
            None => match error_of(it) {
                Some(rc) => Some(Err(rc)),
                None => None,
            },
        }
    }

    proof fn lemma_record_round_trip(m: Result<Seq<char>, i32>) {
        lemma_os_keys();
        match m {
            Ok(text) => {
                lemma_single_round_trip("r"@, Item::Text(text));
                lemma_flat_record(one("r"@, Item::Text(text)));
            },
            Err(rc) => {
                lemma_error_round_trip(rc);
            },
        }
        lemma_within_deeper(Self::record(m), 1, MAX_DEPTH as nat);
    }

    fn to_value(&self) -> (value: Value) {
        match self {
            EchoResult::Success { r } => single_value("r", Value::Text(r.clone())),
            EchoResult::Failure { rc } => error_value(*rc),
        }
    }

    fn from_value(value: &Value) -> (r: Option<Self>) {
        let success = match field_in(value, "r") {
            Some(v) => text_in(v),
            None => None,
        };
        match success {
            Some(text) => Some(EchoResult::Success { r: text }),
            None => match error_in(value) {
                Some(rc) => Some(EchoResult::Failure { rc }),
                None => None,
            },
        }
    }
}

impl Response for EchoResult {
    open spec fn success_shaped(it: Item) -> bool {
        Self::success_of(it) is Some
    }

    open spec fn error_shaped(it: Item) -> bool {
        !Self::success_shaped(it) && error_of(it) is Some
    }

    open spec fn is_success(m: Result<Seq<char>, i32>) -> bool {
        m is Ok
    }

    open spec fn knows(key: Seq<char>) -> bool {
        key == "r"@ || key == "rc"@
    }

    proof fn lemma_further_field(before: Entries, key: Seq<char>, item: Item, after: Entries) {
        lemma_field_without(before, key, item, after, "r"@);
        lemma_field_without(before, key, item, after, "rc"@);
    }

    proof fn lemma_two_shapes(it: Item) {
        lemma_os_keys();
    }
}

/// Asks the device to reset.
#[derive(Debug, Clone, PartialEq, Eq)]
pub struct ResetRequest {}

impl View for ResetRequest {
    type V = ();

    open spec fn view(&self) -> () {
        ()
    }
}

impl Payload for ResetRequest {
    open spec fn record(m: ()) -> Item {
        empty_record()
    }

    open spec fn from_record(it: Item) -> Option<()> {
        if is_record(it) {
            Some(())
        } else {
            None
        }
    }

    proof fn lemma_record_round_trip(m: ()) {
        lemma_flat_record(Seq::empty());
        lemma_within_deeper(Self::record(m), 1, MAX_DEPTH as nat);
    }

    fn to_value(&self) -> (value: Value) {
        empty_value()
    }

    fn from_value(value: &Value) -> (r: Option<Self>) {
        if is_record_value(value) {
            Some(ResetRequest {  })
        } else {
            None
        }
    }
}

/// The frame that asks the device to reset.
pub fn reset(sequence: u8) -> (frame: SmpFrame<ResetRequest>)
    ensures
        frame@ == (SmpFrame {
            operation: OpCode::WriteRequest,
            flags: 0,
            group: Group::Os,
            sequence,
            command: COMMAND_RESET,
            data: (),
        }),
{
    SmpFrame::new(OpCode::WriteRequest, sequence, Group::Os, COMMAND_RESET, ResetRequest {  })
}

/// The answer to a reset: done, or a return code.
#[derive(Debug, Clone, PartialEq, Eq)]
pub enum ResetResult {
    Success {  },
    Failure { rc: i32 },
}

impl View for ResetResult {
    type V = Result<(), i32>;

    open spec fn view(&self) -> Result<(), i32> {
        match self {
            ResetResult::Success {  } => Ok(()),
            ResetResult::Failure { rc } => Err(*rc),
        }
    }
}

impl ResetResult {
    /// The success, or what the device refused with.
    pub fn into_result(self) -> (r: Result<(), i32>)
        ensures
            r == self@,
    {
        match self {
            ResetResult::Success {  } => Ok(()),
            ResetResult::Failure { rc } => Err(rc),
        }
    }
}

impl Payload for ResetResult {
    open spec fn record(m: Result<(), i32>) -> Item {
        status_record(m)
    }

    open spec fn from_record(it: Item) -> Option<Result<(), i32>> {
        status_of(it)
    }

    proof fn lemma_record_round_trip(m: Result<(), i32>) {
        lemma_status_round_trip(m);
        lemma_within_deeper(Self::record(m), 1, MAX_DEPTH as nat);
    }

    fn to_value(&self) -> (value: Value) {
        match self {
            ResetResult::Success {  } => status_value(Ok(())),
            ResetResult::Failure { rc } => status_value(Err(*rc)),
        }
    }

    fn from_value(value: &Value) -> (r: Option<Self>) {
        match status_in(value) {
            Some(Ok(_)) => Some(ResetResult::Success {  }),
            Some(Err(rc)) => Some(ResetResult::Failure { rc }),
            None => None,
        }
    }
}

impl Response for ResetResult {
    open spec fn success_shaped(it: Item) -> bool {
        status_success(it)
    }

    open spec fn error_shaped(it: Item) -> bool {
        !Self::success_shaped(it) && error_of(it) is Some
    }

    open spec fn is_success(m: Result<(), i32>) -> bool {
        m is Ok
    }

    open spec fn knows(key: Seq<char>) -> bool {
        key == "rc"@
    }

    proof fn lemma_further_field(before: Entries, key: Seq<char>, item: Item, after: Entries) {
        lemma_field_without(before, key, item, after, "rc"@);
    }

    proof fn lemma_two_shapes(it: Item) {
    }
}

} // verus!
