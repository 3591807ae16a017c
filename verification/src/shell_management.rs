//! The shell group: running a command line on the device.

use vstd::prelude::*;
use crate::cbor::value::{within_depth, Item, Value, MAX_DEPTH};
use crate::record::{as_i32, as_text, as_text_list, i32_in, int_item, int_value, lemma_int_item, lemma_text_list_round_trip, one, string_views, text_in, text_items, text_list_in, text_list_value, lemma_field_without, Entries};
use crate::shape::{
    error_in, error_of, error_record, error_value, lemma_error_round_trip, lemma_flat_record,
    lemma_pair_round_trip, lemma_single_round_trip, lemma_within_deeper, pair, pair_in, pair_of,
    pair_value, single, field_in, field_of, single_value,
};
use crate::smp::{Group, OpCode, Payload, Response, SmpFrame};

verus! {

/// The command that runs a command line.
pub const COMMAND_EXEC: u8 = 0;

/// The field names of this group differ from one another.
pub proof fn lemma_shell_keys()
    ensures
        "o"@ != "ret"@,
{
    reveal_strlit("o");
    reveal_strlit("ret");
    assert("o"@.len() == 1);
    assert("ret"@.len() == 3);
}

/// Asks the device to run a command line.
#[derive(Debug, Clone, PartialEq, Eq)]
pub struct ShellCommand {
    pub argv: Vec<String>,
}

impl View for ShellCommand {
    type V = Seq<Seq<char>>;

    /// The words of the command line, in order.
    open spec fn view(&self) -> Seq<Seq<char>> {
        string_views(self.argv@)
    }
}

impl Payload for ShellCommand {
    open spec fn record(m: Seq<Seq<char>>) -> Item {
        single("argv"@, Item::Array(text_items(m)))
    }

    open spec fn from_record(it: Item) -> Option<Seq<Seq<char>>> {
        match field_of(it, "argv"@) {
            Some(v) => as_text_list(v),
            None => None,
        }
    }

    proof fn lemma_record_round_trip(m: Seq<Seq<char>>) {
        let list = Item::Array(text_items(m));
        lemma_single_round_trip("argv"@, list);
        lemma_text_list_round_trip(m);
        reveal_with_fuel(within_depth, 2);
        assert(within_depth(Self::record(m), 2)) by {
            let e = one("argv"@, list);
            assert forall|i: int| 0 <= i < e.len() implies within_depth(
                (#[trigger] e[i]).1,
                1,
            ) by {}
        }
        lemma_within_deeper(Self::record(m), 2, MAX_DEPTH as nat);
    }

    fn to_value(&self) -> (value: Value) {
        single_value("argv", text_list_value(&self.argv))
    }

    fn from_value(value: &Value) -> (r: Option<Self>) {
        match field_in(value, "argv") {
            Some(v) => match text_list_in(v) {
                Some(argv) => Some(ShellCommand { argv }),
                None => None,
            },
            None => None,
        }
    }
}

/// The frame that asks the device to run the command line `cmd`.
pub fn shell_command(sequence: u8, cmd: Vec<String>) -> (frame: SmpFrame<ShellCommand>)
    ensures
        frame@ == (SmpFrame {
            operation: OpCode::WriteRequest,
            flags: 0,
            group: Group::ShellManagement,
            sequence,
            command: COMMAND_EXEC,
            data: string_views(cmd@),
        }),
{
    SmpFrame::new(
        OpCode::WriteRequest,
        sequence,
        Group::ShellManagement,
        COMMAND_EXEC,
        ShellCommand { argv: cmd },
    )
}

/// The answer to a command line: what it printed and what it returned, or
/// a return code of the protocol.
#[derive(Debug, Clone, PartialEq, Eq)]
pub enum ShellResult {
    Success { o: String, ret: i32 },
    Failure { rc: i32 },
}

impl View for ShellResult {
    type V = Result<(Seq<char>, i32), i32>;

    open spec fn view(&self) -> Result<(Seq<char>, i32), i32> {
        match self {
            ShellResult::Success { o, ret } => Ok((o@, *ret)),
            ShellResult::Failure { rc } => Err(*rc),
        }
    }
}

impl ShellResult {
    /// The output and the return value of a record that holds `o`, a text,
    /// and `ret`, a signed 32-bit integer.
    pub open spec fn success_of(it: Item) -> Option<(Seq<char>, i32)> {
        match pair_of(it, "o"@, "ret"@) {
            Some((a, b)) => match (as_text(a), as_i32(b)) {
                (Some(o), Some(ret)) => Some((o, ret)),
                _ => None,
            },
            None => None,
        }
    }

    /// The success, or what the device refused with.
    pub fn into_result(self) -> (r: Result<(String, i32), i32>)
        ensures
            match self@ {
                Ok((text, value)) => r matches Ok((o, ret)) && o@ == text && ret == value,
                Err(rc) => r == Err::<(String, i32), i32>(rc),
            },
    {
        match self {
            ShellResult::Success { o, ret } => Ok((o, ret)),
            ShellResult::Failure { rc } => Err(rc),
        }
    }
}

impl Payload for ShellResult {
    open spec fn record(m: Result<(Seq<char>, i32), i32>) -> Item {
        match m {
            Ok((o, ret)) => pair("o"@, Item::Text(o), "ret"@, int_item(ret)),
            Err(rc) => error_record(rc),
        }
    }

    open spec fn from_record(it: Item) -> Option<Result<(Seq<char>, i32), i32>> {
        match Self::success_of(it) {
            Some(done) => Some(Ok(done)),
            None => match error_of(it) {
                Some(rc) => Some(Err(rc)),
                None => None,
            },
        }
    }

    proof fn lemma_record_round_trip(m: Result<(Seq<char>, i32), i32>) {
        lemma_shell_keys();
        match m {
            Ok((o, ret)) => {
                lemma_pair_round_trip("o"@, Item::Text(o), "ret"@, int_item(ret));
                lemma_int_item(ret);
                lemma_flat_record(one("o"@, Item::Text(o)) + one("ret"@, int_item(ret)));
            },
            Err(rc) => {
                lemma_error_round_trip(rc);
            },
        }
        lemma_within_deeper(Self::record(m), 1, MAX_DEPTH as nat);
    }

    fn to_value(&self) -> (value: Value) {
        match self {
            ShellResult::Success { o, ret } => pair_value(
                "o",
                Value::Text(o.clone()),
                "ret",
                int_value(*ret),
            ),
            ShellResult::Failure { rc } => error_value(*rc),
        }
    }

    fn from_value(value: &Value) -> (r: Option<Self>) {
        let success = match pair_in(value, "o", "ret") {
            Some((a, b)) => match (text_in(a), i32_in(b)) {
                (Some(o), Some(ret)) => Some((o, ret)),
                _ => None,
            },
            None => None,
        };
        match success {
            Some((o, ret)) => Some(ShellResult::Success { o, ret }),
            None => match error_in(value) {
                Some(rc) => Some(ShellResult::Failure { rc }),
                None => None,
            },
        }
    }
}

impl Response for ShellResult {
    open spec fn success_shaped(it: Item) -> bool {
        Self::success_of(it) is Some
    }

    open spec fn error_shaped(it: Item) -> bool {
        !Self::success_shaped(it) && error_of(it) is Some
    }

    open spec fn is_success(m: Result<(Seq<char>, i32), i32>) -> bool {
        m is Ok
    }

    open spec fn knows(key: Seq<char>) -> bool {
        key == "o"@ || key == "ret"@ || key == "rc"@
    }

    proof fn lemma_further_field(before: Entries, key: Seq<char>, item: Item, after: Entries) {
        lemma_field_without(before, key, item, after, "o"@);
        lemma_field_without(before, key, item, after, "ret"@);
        lemma_field_without(before, key, item, after, "rc"@);
    }

    proof fn lemma_two_shapes(it: Item) {
    }
}

} // verus!
