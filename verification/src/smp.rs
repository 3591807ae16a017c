//! The frame: an eight-byte header and a payload.

use vstd::prelude::*;
use vstd::slice::slice_subrange;
use crate::cbor::decode::decode;
use crate::cbor::encode::write_item;
use crate::cbor::laws::lemma_whole_round_trip;
use crate::cbor::value::{item_bytes, parse_whole, within_depth, Item, Value, MAX_DEPTH};
use crate::error::Error;
use crate::record::{one, Entries};

verus! {

/// What a frame asks for or answers.
#[derive(Debug, Clone, Copy, PartialEq, Eq, Structural)]
pub enum OpCode {
    ReadRequest,
    ReadResponse,
    WriteRequest,
    WriteResponse,
}

impl OpCode {
    /// The number of an operation in a header.
    pub open spec fn code(self) -> u8 {
        match self {
            OpCode::ReadRequest => 0,
            OpCode::ReadResponse => 1,
            OpCode::WriteRequest => 2,
            OpCode::WriteResponse => 3,
        }
    }

    /// The operation with this number.
    pub open spec fn of_code(code: u8) -> Option<OpCode> {
        if code == 0 {
            Some(OpCode::ReadRequest)
        } else if code == 1 {
            Some(OpCode::ReadResponse)
        } else if code == 2 {
            Some(OpCode::WriteRequest)
        } else if code == 3 {
            Some(OpCode::WriteResponse)
        } else {
            None
        }
    }

    /// The number of this operation in a header.
    pub fn to_byte(self) -> (code: u8)
        ensures
            code == self.code(),
    {
        match self {
            OpCode::ReadRequest => 0,
            OpCode::ReadResponse => 1,
            OpCode::WriteRequest => 2,
            OpCode::WriteResponse => 3,
        }
    }

    /// The operation with this number, where there is one.
    pub fn from_byte(code: u8) -> (operation: Option<OpCode>)
        ensures
            operation == OpCode::of_code(code),
    {
        if code == 0 {
            Some(OpCode::ReadRequest)
        } else if code == 1 {
            Some(OpCode::ReadResponse)
        } else if code == 2 {
            Some(OpCode::WriteRequest)
        } else if code == 3 {
            Some(OpCode::WriteResponse)
        } else {
            None
        }
    }

    /// The response that answers this request; a response answers nothing.
    pub open spec fn answer(self) -> Option<OpCode> {
        match self {
            OpCode::ReadRequest => Some(OpCode::ReadResponse),
            OpCode::WriteRequest => Some(OpCode::WriteResponse),
            _ => None,
        }
    }

    /// The response that answers this request; a response answers nothing.
    pub fn response(self) -> (r: Option<OpCode>)
        ensures
            r == self.answer(),
    {
        match self {
            OpCode::ReadRequest => Some(OpCode::ReadResponse),
            OpCode::WriteRequest => Some(OpCode::WriteResponse),
            _ => None,
        }
    }
}

/// The command group a frame belongs to.
#[derive(Debug, Clone, Copy, PartialEq, Eq, Structural)]
pub enum Group {
    /// Group 0: echo and reset.
    Os,
    /// Group 1: firmware images.
    ApplicationManagement,
    /// Group 3: configuration settings.
    SettingManagement,
    /// Group 9: remote shell.
    ShellManagement,
    /// Any other group, by its number.
    Other(u16),
}

impl Group {
    /// The number of a group in a header.
    pub open spec fn id(self) -> u16 {
        match self {
            Group::Os => 0,
            Group::ApplicationManagement => 1,
            Group::SettingManagement => 3,
            Group::ShellManagement => 9,
            Group::Other(n) => n,
        }
    }

    /// The group with this number.
    pub open spec fn of_id(id: u16) -> Group {
        if id == 0 {
            Group::Os
        } else if id == 1 {
            Group::ApplicationManagement
        } else if id == 3 {
            Group::SettingManagement
        } else if id == 9 {
            Group::ShellManagement
        } else {
            Group::Other(id)
        }
    }

    /// A group is well formed where it names each number in one way only:
    /// `Other` holds no number that has a name of its own.
    pub open spec fn wf(self) -> bool {
        Group::of_id(self.id()) == self
    }

    /// The number of this group in a header.
    pub fn to_id(self) -> (id: u16)
        ensures
            id == self.id(),
    {
        match self {
            Group::Os => 0,
            Group::ApplicationManagement => 1,
            Group::SettingManagement => 3,
            Group::ShellManagement => 9,
            Group::Other(n) => n,
        }
    }

    /// The group with this number.
    pub fn from_id(id: u16) -> (group: Group)
        ensures
            group == Group::of_id(id),
            group.id() == id,
            group.wf(),
    {
        if id == 0 {
            Group::Os
        } else if id == 1 {
            Group::ApplicationManagement
        } else if id == 3 {
            Group::SettingManagement
        } else if id == 9 {
            Group::ShellManagement
        } else {
            Group::Other(id)
        }
    }
}

/// A frame: header fields and a payload.
#[derive(Debug, Clone, PartialEq, Eq)]
pub struct SmpFrame<T> {
    pub operation: OpCode,
    pub flags: u8,
    pub group: Group,
    pub sequence: u8,
    pub command: u8,
    pub data: T,
}

impl<T: View> View for SmpFrame<T> {
    type V = SmpFrame<T::V>;

    open spec fn view(&self) -> SmpFrame<T::V> {
        SmpFrame {
            operation: self.operation,
            flags: self.flags,
            group: self.group,
            sequence: self.sequence,
            command: self.command,
            data: self.data@,
        }
    }
}

impl<T> SmpFrame<T> {
    /// A frame with no flags set.
    pub fn new(operation: OpCode, sequence: u8, group: Group, command: u8, data: T) -> (frame:
        SmpFrame<T>)
        ensures
            frame == (SmpFrame { operation, flags: 0, group, sequence, command, data }),
    {
        SmpFrame { operation, flags: 0, group, sequence, command, data }
    }
}

impl<T> SmpFrame<T> {
    /// A frame answers a request where it is the response to the request's
    /// operation and repeats its sequence number, its group and its command.
    pub open spec fn answers<Req>(self, request: SmpFrame<Req>) -> bool {
        &&& request.operation.answer() == Some(self.operation)
        &&& self.sequence == request.sequence
        &&& self.group == request.group
        &&& self.command == request.command
    }

    /// Whether this frame answers `request`. An exchange does not ask this
    /// of what it receives; a caller that wants responses held against
    /// their requests asks it.
    pub fn is_response_to<Req>(&self, request: &SmpFrame<Req>) -> (r: bool)
        ensures
            r == self.answers(*request),
    {
        let expected = match request.operation.response() {
            Some(operation) => operation == self.operation,
            None => false,
        };
        expected && self.sequence == request.sequence && self.group == request.group
            && self.command == request.command
    }
}

/// The sequence number after `sequence`; 0 follows 255.
pub open spec fn next_sequence(sequence: u8) -> u8 {
    if sequence == 255 {
        0
    } else {
        (sequence + 1) as u8
    }
}

/// The sequence number for the request after the one numbered `sequence`.
pub fn sequence_after(sequence: u8) -> (next: u8)
    ensures
        next == next_sequence(sequence),
{
    if sequence == 255 {
        0
    } else {
        sequence + 1
    }
}

/// A payload: a value that is written as a record and read from one.
pub trait Payload: Sized + View {
    /// The record that a payload is written as.
    spec fn record(m: Self::V) -> Item;

    /// The payload that a record is read as; `None` where the record is not
    /// of this payload's shape.
    spec fn from_record(it: Item) -> Option<Self::V>;

    /// A payload is read back from its record, and its record is nested no
    /// deeper than is read.
    proof fn lemma_record_round_trip(m: Self::V)
        ensures
            Self::from_record(Self::record(m)) == Some(m),
            within_depth(Self::record(m), MAX_DEPTH as nat),
    ;

    fn to_value(&self) -> (value: Value)
        ensures
            value@ == Self::record(self@),
    ;

    fn from_value(value: &Value) -> (r: Option<Self>)
        ensures
            match Self::from_record(value@) {
                Some(m) => r matches Some(p) && p@ == m,
                None => r is None,
            },
    ;
}

/// A response: a payload of one of two shapes, success or error. A record
/// is read as a success where it has the success fields, as an error where
/// it has not and holds a return code; fields of neither shape are passed
/// over.
pub trait Response: Payload {
    /// The record has the fields of this response's success shape.
    spec fn success_shaped(it: Item) -> bool;

    /// The record has the fields of this response's error shape and is no
    /// success: where a record could be read either way, it is a success.
    spec fn error_shaped(it: Item) -> bool;

    /// The payload is a success.
    spec fn is_success(m: Self::V) -> bool;

    /// The key names a field of one of the two shapes.
    spec fn knows(key: Seq<char>) -> bool;

    /// A field of neither shape is passed over: a record is read as it is
    /// read without that field, wherever the field stands in it.
    proof fn lemma_further_field(before: Entries, key: Seq<char>, item: Item, after: Entries)
        requires
            !Self::knows(key),
        ensures
            Self::from_record(Item::TextMap(before + one(key, item) + after)) == Self::from_record(
                Item::TextMap(before + after),
            ),
    ;

    /// No record is of both shapes; a record is read where it is of one of
    /// them, as a success exactly where it is success-shaped.
    proof fn lemma_two_shapes(it: Item)
        ensures
            !(Self::success_shaped(it) && Self::error_shaped(it)),
            Self::from_record(it) is Some <==> Self::success_shaped(it) || Self::error_shaped(it),
            Self::from_record(it) matches Some(m) ==> (Self::is_success(m)
                <==> Self::success_shaped(it)),
    ;
}

/// A response is written in the shape of what it is: a success in the
/// success shape and not in the error shape, an error in the error shape and
/// not in the success shape. So no success is read as an error, and no error
/// as a success.
pub proof fn lemma_written_in_its_shape<R: Response>(m: R::V)
    ensures
        R::is_success(m) ==> R::success_shaped(R::record(m)) && !R::error_shaped(R::record(m)),
        !R::is_success(m) ==> R::error_shaped(R::record(m)) && !R::success_shaped(R::record(m)),
{
    R::lemma_record_round_trip(m);
    R::lemma_two_shapes(R::record(m));
}

/// The number of bytes in a header.
pub const HEADER_LEN: usize = 8;

/// The longest payload that a header's length field can announce.
pub const MAX_PAYLOAD_LEN: usize = 0xffff;

/// The header: operation, flags, payload length, group, sequence number and
/// command, the two 16-bit fields with their high byte first.
pub open spec fn header_bytes(
    operation: OpCode,
    flags: u8,
    length: u16,
    group: Group,
    sequence: u8,
    command: u8,
) -> Seq<u8> {
    seq![
        operation.code(),
        flags,
        (length / 0x100) as u8,
        (length % 0x100) as u8,
        (group.id() / 0x100) as u8,
        (group.id() % 0x100) as u8,
        sequence,
        command,
    ]
}

/// The bytes of a payload.
pub open spec fn payload_bytes<T: Payload>(m: T::V) -> Seq<u8> {
    item_bytes(T::record(m))
}

/// The payload is short enough for a frame.
pub open spec fn payload_fits<T: Payload>(m: T::V) -> bool {
    payload_bytes::<T>(m).len() <= MAX_PAYLOAD_LEN
}

/// A frame can be sent and read back: its payload is short enough and its
/// group is well formed.
pub open spec fn frame_valid<T: Payload>(frame: SmpFrame<T::V>) -> bool {
    payload_fits::<T>(frame.data) && frame.group.wf()
}

/// The bytes of a frame: the header, then the payload.
pub open spec fn frame_bytes<T: Payload>(frame: SmpFrame<T::V>) -> Seq<u8> {
    header_bytes(
        frame.operation,
        frame.flags,
        payload_bytes::<T>(frame.data).len() as u16,
        frame.group,
        frame.sequence,
        frame.command,
    ) + payload_bytes::<T>(frame.data)
}

/// The frame that `s` is. There is none where `s` is shorter than a header,
/// where the operation is unknown, where the payload is not as long as the
/// header says, or where it is not a record of the payload's shape.
pub open spec fn parse_frame<T: Payload>(s: Seq<u8>) -> Option<SmpFrame<T::V>> {
    if s.len() < HEADER_LEN {
        None
    } else {
        match (OpCode::of_code(s[0]), parse_whole(s.skip(HEADER_LEN as int))) {
            (Some(operation), Some(it)) => match T::from_record(it) {
                Some(data) => if s.len() == HEADER_LEN + s[2] * 0x100 + s[3] {
                    Some(
                        SmpFrame {
                            operation,
                            flags: s[1],
                            group: Group::of_id((s[4] * 0x100 + s[5]) as u16),
                            sequence: s[6],
                            command: s[7],
                            data,
                        },
                    )
                } else {
                    None
                },
                None => None,
            },
            _ => None,
        }
    }
}

/// Decoding the bytes of a valid frame gives the frame.
pub proof fn lemma_frame_round_trip<T: Payload>(frame: SmpFrame<T::V>)
    requires
        frame_valid::<T>(frame),
    ensures
        parse_frame::<T>(frame_bytes::<T>(frame)) == Some(frame),
{
    let payload = payload_bytes::<T>(frame.data);
    let s = frame_bytes::<T>(frame);
    T::lemma_record_round_trip(frame.data);
    lemma_whole_round_trip(T::record(frame.data));
    assert(s.skip(HEADER_LEN as int) =~= payload);
    assert(s[0] == frame.operation.code());
    assert(s[1] == frame.flags);
    assert(s[6] == frame.sequence);
    assert(s[7] == frame.command);
    let length = payload.len() as u16;
    assert(s[2] == (length / 0x100) as u8);
    assert(s[3] == (length % 0x100) as u8);
    assert(s[4] == (frame.group.id() / 0x100) as u8);
    assert(s[5] == (frame.group.id() % 0x100) as u8);
}

impl<T: Payload> SmpFrame<T> {
    /// The bytes of this frame. There are none where the payload is longer
    /// than a header can announce.
    pub fn encode_with_cbor(&self) -> (r: Result<Vec<u8>, Error>)
        ensures
            match r {
                Ok(bytes) => payload_fits::<T>(self.data@) && bytes@ == frame_bytes::<T>(self@),
                Err(e) => !payload_fits::<T>(self.data@) && e is PayloadTooLarge,
            },
    {
        let value = self.data.to_value();
        let group = self.group.to_id();
        let mut out: Vec<u8> = Vec::new();
        out.push(self.operation.to_byte());
        out.push(self.flags);
        out.push(0);
        out.push(0);
        out.push((group / 0x100) as u8);
        out.push((group % 0x100) as u8);
        out.push(self.sequence);
        out.push(self.command);
        let ghost head = out@;
        write_item(&mut out, &value);
        let length = out.len() - HEADER_LEN;
        if length > MAX_PAYLOAD_LEN {
            return Err(Error::PayloadTooLarge);
        }
        out.set(2, (length / 0x100) as u8);
        out.set(3, (length % 0x100) as u8);
        assert(out@ =~= frame_bytes::<T>(self@));
        Ok(out)
    }

    /// The frame that these bytes are.
    pub fn decode_with_cbor(bytes: &[u8]) -> (r: Result<SmpFrame<T>, Error>)
        ensures
            match parse_frame::<T>(bytes@) {
                Some(frame) => r matches Ok(f) && f@ == frame,
                None => r matches Err(e) && e is MalformedFrame,
            },
    {
        if bytes.len() < HEADER_LEN {
            return Err(Error::MalformedFrame);
        }
        let operation = match OpCode::from_byte(bytes[0]) {
            Some(operation) => operation,
            None => {
                return Err(Error::MalformedFrame);
            },
        };
        let length: usize = bytes[2] as usize * 0x100 + bytes[3] as usize;
        let group: u16 = bytes[4] as u16 * 0x100 + bytes[5] as u16;
        let payload = slice_subrange(bytes, HEADER_LEN, bytes.len());
        assert(payload@ =~= bytes@.skip(HEADER_LEN as int));
        let value = match decode(payload) {
            Some(value) => value,
            None => {
                return Err(Error::MalformedFrame);
            },
        };
        let data = match T::from_value(&value) {
            Some(data) => data,
            None => {
                return Err(Error::MalformedFrame);
            },
        };
        if bytes.len() - HEADER_LEN != length {
            return Err(Error::MalformedFrame);
        }
        Ok(
            SmpFrame {
                operation,
                flags: bytes[1],
                group: Group::from_id(group),
                sequence: bytes[6],
                command: bytes[7],
                data,
            },
        )
    }
}

} // verus!
