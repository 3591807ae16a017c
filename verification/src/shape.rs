//! The shapes that payloads share: records of none, one or two fields, and
//! the error that a device answers with. A record is of a shape where it
//! holds the fields of that shape; what else it holds is passed over.

use vstd::prelude::*;
use crate::cbor::value::{entry_views, within_depth, Item, Value};
use crate::record::{
    as_i32, as_text, entries_of, field, i32_in, int_item, int_value, lemma_field_add,
    lemma_field_one, lookup, maybe, one, put, record_value, text_in, Entries,
};

verus! {

/// The record without fields.
pub open spec fn empty_record() -> Item {
    Item::TextMap(Seq::empty())
}

/// The record without fields takes one byte.
pub proof fn lemma_empty_record_bytes()
    ensures
        crate::cbor::value::item_bytes(empty_record()).len() == 1,
        within_depth(empty_record(), 1),
{
    crate::cbor::head::lemma_head_bytes_len(crate::cbor::head::MAJOR_MAP, 0);
    lemma_flat_record(Seq::empty());
}

/// The item is a record: a map with text keys.
pub open spec fn is_record(it: Item) -> bool {
    it is TextMap
}

/// The record with one field.
pub open spec fn single(key: Seq<char>, item: Item) -> Item {
    Item::TextMap(one(key, item))
}

/// The field of a record under this key: the first, where the record holds
/// the key more than once. Nothing where the record has no such key, or the
/// item is no record.
pub open spec fn field_of(it: Item, key: Seq<char>) -> Option<Item> {
    match it {
        Item::TextMap(e) => field(e, key),
        _ => None,
    }
}

/// The record with two fields.
pub open spec fn pair(first: Seq<char>, a: Item, second: Seq<char>, b: Item) -> Item {
    Item::TextMap(one(first, a) + one(second, b))
}

/// The two fields of a record that holds both, in either order.
pub open spec fn pair_of(it: Item, first: Seq<char>, second: Seq<char>) -> Option<(Item, Item)> {
    match (field_of(it, first), field_of(it, second)) {
        (Some(a), Some(b)) => Some((a, b)),
        _ => None,
    }
}

/// The record with one field, and a second where there is an item for it.
pub open spec fn with_optional(
    first: Seq<char>,
    a: Item,
    second: Seq<char>,
    b: Option<Item>,
) -> Item {
    Item::TextMap(one(first, a) + maybe(second, b))
}

/// The first field of a record that holds it, with the second where the
/// record holds that too.
pub open spec fn with_optional_of(it: Item, first: Seq<char>, second: Seq<char>) -> Option<
    (Item, Option<Item>),
> {
    match field_of(it, first) {
        Some(a) => Some((a, field_of(it, second))),
        None => None,
    }
}

/// The record with one field holds that field and no other.
pub proof fn lemma_field_of_single(key: Seq<char>, item: Item, other: Seq<char>)
    ensures
        field_of(single(key, item), other) == (if key == other {
            Some(item)
        } else {
            None
        }),
{
    lemma_field_one(key, item, other);
}

/// The record with two fields holds those two and no other.
pub proof fn lemma_field_of_pair(
    first: Seq<char>,
    a: Item,
    second: Seq<char>,
    b: Item,
    other: Seq<char>,
)
    ensures
        field_of(pair(first, a, second, b), other) == (if other == first {
            Some(a)
        } else if other == second {
            Some(b)
        } else {
            None
        }),
{
    lemma_field_add(one(first, a), one(second, b), other);
    lemma_field_one(first, a, other);
    lemma_field_one(second, b, other);
}

/// The record with a field and an optional one holds those and no other.
pub proof fn lemma_field_of_with_optional(
    first: Seq<char>,
    a: Item,
    second: Seq<char>,
    b: Option<Item>,
    other: Seq<char>,
)
    ensures
        field_of(with_optional(first, a, second, b), other) == (if other == first {
            Some(a)
        } else if other == second {
            b
        } else {
            None
        }),
{
    lemma_field_add(one(first, a), maybe(second, b), other);
    lemma_field_one(first, a, other);
    match b {
        Some(item) => {
            lemma_field_one(second, item, other);
        },
        None => {},
    }
}

/// A field is read back from the record that holds it alone.
pub proof fn lemma_single_round_trip(key: Seq<char>, item: Item)
    ensures
        field_of(single(key, item), key) == Some(item),
{
    lemma_field_of_single(key, item, key);
}

/// Two fields are read back from the record that holds them.
pub proof fn lemma_pair_round_trip(first: Seq<char>, a: Item, second: Seq<char>, b: Item)
    requires
        first != second,
    ensures
        pair_of(pair(first, a, second, b), first, second) == Some((a, b)),
{
    lemma_field_of_pair(first, a, second, b, first);
    lemma_field_of_pair(first, a, second, b, second);
}

/// A field and an optional one are read back from the record that holds them.
pub proof fn lemma_with_optional_round_trip(
    first: Seq<char>,
    a: Item,
    second: Seq<char>,
    b: Option<Item>,
)
    requires
        first != second,
    ensures
        with_optional_of(with_optional(first, a, second, b), first, second) == Some((a, b)),
{
    lemma_field_of_with_optional(first, a, second, b, first);
    lemma_field_of_with_optional(first, a, second, b, second);
}

/// An item that is neither an array nor a map.
pub open spec fn is_scalar(it: Item) -> bool {
    !(it is Array) && !(it is TextMap)
}

/// A record whose fields are neither arrays nor maps is nested one deep.
pub proof fn lemma_flat_record(e: Entries)
    requires
        forall|i: int| 0 <= i < e.len() ==> is_scalar((#[trigger] e[i]).1),
    ensures
        within_depth(Item::TextMap(e), 1),
{
    reveal_with_fuel(within_depth, 2);
    assert forall|i: int| 0 <= i < e.len() implies within_depth((#[trigger] e[i]).1, 0) by {
        assert(is_scalar(e[i].1));
    }
}

/// An item nested no deeper than one bound is nested no deeper than a
/// larger one.
pub proof fn lemma_within_deeper(it: Item, depth: nat, more: nat)
    requires
        within_depth(it, depth),
        depth <= more,
    ensures
        within_depth(it, more),
    decreases it,
{
    match it {
        Item::Array(items) => {
            assert forall|i: int| 0 <= i < items.len() implies within_depth(
                #[trigger] items[i],
                (more - 1) as nat,
            ) by {
                lemma_within_deeper(items[i], (depth - 1) as nat, (more - 1) as nat);
            }
        },
        Item::TextMap(entries) => {
            assert forall|i: int| 0 <= i < entries.len() implies within_depth(
                (#[trigger] entries[i]).1,
                (more - 1) as nat,
            ) by {
                lemma_within_deeper(entries[i].1, (depth - 1) as nat, (more - 1) as nat);
            }
        },
        _ => {},
    }
}

/// The record of an error: the return code under `rc`.
/// The record of an error: the return code under `rc`.
pub open spec fn error_record(rc: i32) -> Item {
    single("rc"@, int_item(rc))
}

/// The return code of a record that holds `rc`, a signed 32-bit integer.
pub open spec fn error_of(it: Item) -> Option<i32> {
    match field_of(it, "rc"@) {
        Some(v) => as_i32(v),
        None => None,
    }
}

/// The item of an optional text.
pub open spec fn opt_text_item(x: Option<Seq<char>>) -> Option<Item> {
    match x {
        Some(t) => Some(Item::Text(t)),
        None => None,
    }
}

/// An optional field as a text: absent, or present and a text; `None` where
/// it is present and no text.
pub open spec fn opt_text(x: Option<Item>) -> Option<Option<Seq<char>>> {
    match x {
        None => Some(None),
        Some(it) => match as_text(it) {
            Some(t) => Some(Some(t)),
            None => None,
        },
    }
}

/// The record of an error that may give a reason: the return code under
/// `rc`, the reason under `rsn`.
pub open spec fn reasoned_error_record(rc: i32, reason: Option<Seq<char>>) -> Item {
    with_optional("rc"@, int_item(rc), "rsn"@, opt_text_item(reason))
}

/// The return code and the reason of a record that holds `rc`, a signed
/// 32-bit integer, and may hold `rsn`, a text.
pub open spec fn reasoned_error_of(it: Item) -> Option<(i32, Option<Seq<char>>)> {
    match (error_of(it), opt_text(field_of(it, "rsn"@))) {
        (Some(rc), Some(reason)) => Some((rc, reason)),
        _ => None,
    }
}

/// The two field names of an error differ.
pub proof fn lemma_error_keys()
    ensures
        "rc"@ != "rsn"@,
        "rc"@.len() == 2,
        "rsn"@.len() == 3,
        "rc"@[0] == 'r',
        "rc"@[1] == 'c',
        "rsn"@[0] == 'r',
        "rsn"@[1] == 's',
{
    reveal_strlit("rc");
    reveal_strlit("rsn");
    assert("rc"@.len() == 2);
    assert("rsn"@.len() == 3);
}

/// An error is read back from its record, which holds `rc` and no other field.
pub proof fn lemma_error_round_trip(rc: i32)
    ensures
        error_of(error_record(rc)) == Some(rc),
        forall|other: Seq<char>| other != "rc"@ ==> (#[trigger] field_of(error_record(rc), other))
            is None,
        within_depth(error_record(rc), 1),
{
    lemma_field_of_single("rc"@, int_item(rc), "rc"@);
    assert forall|other: Seq<char>| other != "rc"@ implies (#[trigger] field_of(
        error_record(rc),
        other,
    )) is None by {
        lemma_field_of_single("rc"@, int_item(rc), other);
    }
    lemma_flat_record(one("rc"@, int_item(rc)));
}

/// An error with its reason is read back from its record, which holds `rc`,
/// `rsn` and no other field.
pub proof fn lemma_reasoned_error_round_trip(rc: i32, reason: Option<Seq<char>>)
    ensures
        reasoned_error_of(reasoned_error_record(rc, reason)) == Some((rc, reason)),
        forall|other: Seq<char>|
            other != "rc"@ && other != "rsn"@ ==> (#[trigger] field_of(
                reasoned_error_record(rc, reason),
                other,
            )) is None,
        within_depth(reasoned_error_record(rc, reason), 1),
{
    lemma_error_keys();
    let item = opt_text_item(reason);
    lemma_field_of_with_optional("rc"@, int_item(rc), "rsn"@, item, "rc"@);
    lemma_field_of_with_optional("rc"@, int_item(rc), "rsn"@, item, "rsn"@);
    assert forall|other: Seq<char>| other != "rc"@ && other != "rsn"@ implies (#[trigger] field_of(
        reasoned_error_record(rc, reason),
        other,
    )) is None by {
        lemma_field_of_with_optional("rc"@, int_item(rc), "rsn"@, item, other);
    }
    let e = one("rc"@, int_item(rc)) + maybe("rsn"@, item);
    assert forall|i: int| 0 <= i < e.len() implies is_scalar((#[trigger] e[i]).1) by {
        if i > 0 {
            assert(e[i] == maybe("rsn"@, item)[i - 1]);
        }
    }
    lemma_flat_record(e);
}

/// The record of a response that says no more than whether the device did
/// as asked: no fields for success, the return code for an error.
pub open spec fn status_record(status: Result<(), i32>) -> Item {
    match status {
        Ok(_) => empty_record(),
        Err(rc) => error_record(rc),
    }
}

/// The record is the success of such a response: a record without `rc`.
pub open spec fn status_success(it: Item) -> bool {
    is_record(it) && field_of(it, "rc"@) is None
}

/// The response that a record is: a success where it holds no `rc`, else
/// the error whose return code it holds.
pub open spec fn status_of(it: Item) -> Option<Result<(), i32>> {
    if status_success(it) {
        Some(Ok(()))
    } else {
        match error_of(it) {
            Some(rc) => Some(Err(rc)),
            None => None,
        }
    }
}

/// Such a response is read back from its record.
pub proof fn lemma_status_round_trip(status: Result<(), i32>)
    ensures
        status_of(status_record(status)) == Some(status),
        within_depth(status_record(status), 1),
{
    match status {
        Ok(unit) => {
            lemma_flat_record(Seq::empty());
            assert(status_success(empty_record()));
            assert(unit == ());
        },
        Err(rc) => {
            lemma_error_round_trip(rc);
        },
    }
}

/// The value of the record without fields.
pub fn empty_value() -> (value: Value)
    ensures
        value@ == empty_record(),
{
    let entries: Vec<(String, Value)> = Vec::new();
    assert(entry_views(entries@) =~= Seq::<(Seq<char>, Item)>::empty());
    record_value(entries)
}

/// Whether a value is a record.
pub fn is_record_value(value: &Value) -> (r: bool)
    ensures
        r == is_record(value@),
{
    entries_of(value).is_some()
}

/// The value of the record with one field.
pub fn single_value(key: &str, item: Value) -> (value: Value)
    ensures
        value@ == single(key@, item@),
{
    let mut entries: Vec<(String, Value)> = Vec::new();
    put(&mut entries, key, item);
    assert(entry_views(entries@) =~= one(key@, item@));
    record_value(entries)
}

/// The field of a value under this key.
pub fn field_in<'a>(value: &'a Value, key: &str) -> (r: Option<&'a Value>)
    ensures
        match field_of(value@, key@) {
            Some(it) => r matches Some(v) && v@ == it,
            None => r is None,
        },
{
    match entries_of(value) {
        Some(entries) => lookup(entries, key),
        None => None,
    }
}

/// The value of the record with two fields.
pub fn pair_value(first: &str, a: Value, second: &str, b: Value) -> (value: Value)
    ensures
        value@ == pair(first@, a@, second@, b@),
{
    let mut entries: Vec<(String, Value)> = Vec::new();
    put(&mut entries, first, a);
    put(&mut entries, second, b);
    assert(entry_views(entries@) =~= one(first@, a@) + one(second@, b@));
    record_value(entries)
}

/// The two fields of a value that is a record of both.
pub fn pair_in<'a>(value: &'a Value, first: &str, second: &str) -> (r: Option<
    (&'a Value, &'a Value),
>)
    ensures
        match pair_of(value@, first@, second@) {
            Some((x, y)) => r matches Some((a, b)) && a@ == x && b@ == y,
            None => r is None,
        },
{
    match (field_in(value, first), field_in(value, second)) {
        (Some(a), Some(b)) => Some((a, b)),
        _ => None,
    }
}

/// The value of the record with one field, and a second where there is a
/// value for it.
pub fn with_optional_value(first: &str, a: Value, second: &str, b: Option<Value>) -> (value:
    Value)
    ensures
        value@ == with_optional(
            first@,
            a@,
            second@,
            match b {
                Some(v) => Some(v@),
                None => None,
            },
        ),
{
    let mut entries: Vec<(String, Value)> = Vec::new();
    put(&mut entries, first, a);
    let ghost base = entry_views(entries@);
    assert(base =~= one(first@, a@));
    match b {
        Some(v) => {
            put(&mut entries, second, v);
        },
        None => {
            assert(base + Seq::<(Seq<char>, Item)>::empty() =~= base);
        },
    }
    record_value(entries)
}

/// The first field of a value that is a record of it, with the second
/// where the record holds that too.
pub fn with_optional_in<'a>(value: &'a Value, first: &str, second: &str) -> (r: Option<
    (&'a Value, Option<&'a Value>),
>)
    ensures
        match with_optional_of(value@, first@, second@) {
            Some((x, y)) => r matches Some((a, b)) && a@ == x && match y {
                Some(it) => b matches Some(v) && v@ == it,
                None => b is None,
            },
            None => r is None,
        },
{
    match field_in(value, first) {
        Some(a) => Some((a, field_in(value, second))),
        None => None,
    }
}

/// The value of an error's record.
pub fn error_value(rc: i32) -> (value: Value)
    ensures
        value@ == error_record(rc),
{
    single_value("rc", int_value(rc))
}

/// The return code of a value that is an error's record.
pub fn error_in(value: &Value) -> (r: Option<i32>)
    ensures
        r == error_of(value@),
{
    match field_in(value, "rc") {
        Some(v) => i32_in(v),
        None => None,
    }
}

/// The value of the record of an error that may give a reason.
pub fn reasoned_error_value(rc: i32, reason: &Option<String>) -> (value: Value)
    ensures
        value@ == reasoned_error_record(
            rc,
            match reason {
                Some(t) => Some(t@),
                None => None,
            },
        ),
{
    let second = match reason {
        Some(t) => Some(Value::Text(t.clone())),
        None => None,
    };
    with_optional_value("rc", int_value(rc), "rsn", second)
}

/// The return code and the reason of a value that is such an error's record.
pub fn reasoned_error_in(value: &Value) -> (r: Option<(i32, Option<String>)>)
    ensures
        match reasoned_error_of(value@) {
            Some((rc, reason)) => r matches Some((code, text)) && code == rc && match reason {
                Some(t) => text matches Some(s) && s@ == t,
                None => text is None,
            },
            None => r is None,
        },
{
    match error_in(value) {
        Some(rc) => match field_in(value, "rsn") {
            None => Some((rc, None)),
            Some(v) => match text_in(v) {
                Some(t) => Some((rc, Some(t))),
                None => None,
            },
        },
        None => None,
    }
}

/// The value of the record of a response without fields of its own.
pub fn status_value(status: Result<(), i32>) -> (value: Value)
    ensures
        value@ == status_record(status),
{
    match status {
        Ok(_) => empty_value(),
        Err(rc) => error_value(rc),
    }
}

/// The response that a value is: success where it is a record without a
/// return code, else the error whose return code it holds.
pub fn status_in(value: &Value) -> (r: Option<Result<(), i32>>)
    ensures
        r == status_of(value@),
{
    if is_record_value(value) && field_in(value, "rc").is_none() {
        Some(Ok(()))
    } else {
        match error_in(value) {
            Some(rc) => Some(Err(rc)),
            None => None,
        }
    }
}

} // verus!
