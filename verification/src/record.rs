//! Payloads as records: maps from field names to items, and the fields
//! read out of them.

use vstd::prelude::*;
use vstd::slice::slice_to_vec;
use vstd::utf8::{encode_utf8, encode_utf8_decode_utf8};
use crate::cbor::value::{entry_views, item_views, lemma_view_of_parts, within_depth, Item, Value};

verus! {

/// The entries of a record.
pub type Entries = Seq<(Seq<char>, Item)>;

/// The item under the first entry with this key.
pub open spec fn field(entries: Entries, key: Seq<char>) -> Option<Item>
    decreases entries.len(),
{
    if entries.len() == 0 {
        None
    } else if entries[0].0 == key {
        Some(entries[0].1)
    } else {
        field(entries.drop_first(), key)
    }
}

/// The record with one entry.
pub open spec fn one(key: Seq<char>, item: Item) -> Entries {
    seq![(key, item)]
}

/// The record with one entry where there is an item, and with none where
/// there is not.
pub open spec fn maybe(key: Seq<char>, item: Option<Item>) -> Entries {
    match item {
        Some(it) => one(key, it),
        None => Seq::empty(),
    }
}

/// In two records written one after the other, a key is found in the first,
/// and in the second where the first has none.
pub broadcast proof fn lemma_field_add(a: Entries, b: Entries, key: Seq<char>)
    ensures
        #[trigger] field(a + b, key) == (if field(a, key) is Some {
            field(a, key)
        } else {
            field(b, key)
        }),
    decreases a.len(),
{
    if a.len() == 0 {
        assert(a + b =~= b);
    } else {
        assert((a + b).drop_first() =~= a.drop_first() + b);
        lemma_field_add(a.drop_first(), b, key);
    }
}

/// A record with one entry holds its key and no other.
pub broadcast proof fn lemma_field_one(k: Seq<char>, item: Item, key: Seq<char>)
    ensures
        #[trigger] field(one(k, item), key) == (if k == key {
            Some(item)
        } else {
            None
        }),
{
    reveal_with_fuel(field, 2);
    assert(one(k, item).drop_first() =~= Seq::<(Seq<char>, Item)>::empty());
}

/// A key is found in a record as it is found in the record without an
/// entry under another key, wherever that entry stands.
pub proof fn lemma_field_without(
    before: Entries,
    other: Seq<char>,
    item: Item,
    after: Entries,
    key: Seq<char>,
)
    requires
        key != other,
    ensures
        field(before + one(other, item) + after, key) == field(before + after, key),
{
    lemma_field_add(before + one(other, item), after, key);
    lemma_field_add(before, one(other, item), key);
    lemma_field_one(other, item, key);
    lemma_field_add(before, after, key);
}

/// The integer that an item is.
pub open spec fn as_int(it: Item) -> Option<int> {
    match it {
        Item::Unsigned(n) => Some(n as int),
        Item::Negative(n) => Some(-1 - n),
        _ => None,
    }
}

/// The signed 32-bit integer that an item is.
pub open spec fn as_i32(it: Item) -> Option<i32> {
    match as_int(it) {
        Some(n) => if i32::MIN <= n <= i32::MAX {
            Some(n as i32)
        } else {
            None
        },
        None => None,
    }
}

/// The unsigned 64-bit integer that an item is.
pub open spec fn as_u64(it: Item) -> Option<u64> {
    match it {
        Item::Unsigned(n) => Some(n),
        _ => None,
    }
}

/// The unsigned 32-bit integer that an item is.
pub open spec fn as_u32(it: Item) -> Option<u32> {
    match it {
        Item::Unsigned(n) => if n <= u32::MAX {
            Some(n as u32)
        } else {
            None
        },
        _ => None,
    }
}

/// The unsigned 8-bit integer that an item is.
pub open spec fn as_u8(it: Item) -> Option<u8> {
    match it {
        Item::Unsigned(n) => if n <= u8::MAX {
            Some(n as u8)
        } else {
            None
        },
        _ => None,
    }
}

/// The text that an item is.
pub open spec fn as_text(it: Item) -> Option<Seq<char>> {
    match it {
        Item::Text(t) => Some(t),
        _ => None,
    }
}

/// The byte string that an item is.
pub open spec fn as_bytes(it: Item) -> Option<Seq<u8>> {
    match it {
        Item::Bytes(b) => Some(b),
        _ => None,
    }
}

/// The truth value that an item is.
pub open spec fn as_bool(it: Item) -> Option<bool> {
    match it {
        Item::Bool(b) => Some(b),
        _ => None,
    }
}

/// The item that a signed integer is written as.
pub open spec fn int_item(n: i32) -> Item {
    if n >= 0 {
        Item::Unsigned(n as u64)
    } else {
        Item::Negative((-1 - n) as u64)
    }
}

/// A signed integer is read back from its item.
pub proof fn lemma_int_item(n: i32)
    ensures
        as_i32(int_item(n)) == Some(n),
{
}

/// An optional field as an unsigned 8-bit integer: absent, or present and
/// of that type; `None` where it is present and of another type.
pub open spec fn opt_u8(x: Option<Item>) -> Option<Option<u8>> {
    match x {
        None => Some(None),
        Some(it) => match as_u8(it) {
            Some(n) => Some(Some(n)),
            None => None,
        },
    }
}

/// An optional field as an unsigned 32-bit integer.
pub open spec fn opt_u32(x: Option<Item>) -> Option<Option<u32>> {
    match x {
        None => Some(None),
        Some(it) => match as_u32(it) {
            Some(n) => Some(Some(n)),
            None => None,
        },
    }
}

/// An optional field as an unsigned 64-bit integer.
pub open spec fn opt_u64(x: Option<Item>) -> Option<Option<u64>> {
    match x {
        None => Some(None),
        Some(it) => match as_u64(it) {
            Some(n) => Some(Some(n)),
            None => None,
        },
    }
}

/// An optional field as a signed 32-bit integer.
pub open spec fn opt_i32(x: Option<Item>) -> Option<Option<i32>> {
    match x {
        None => Some(None),
        Some(it) => match as_i32(it) {
            Some(n) => Some(Some(n)),
            None => None,
        },
    }
}

/// An optional field as a byte string.
pub open spec fn opt_bytes(x: Option<Item>) -> Option<Option<Seq<u8>>> {
    match x {
        None => Some(None),
        Some(it) => match as_bytes(it) {
            Some(b) => Some(Some(b)),
            None => None,
        },
    }
}

/// An optional field as a truth value.
pub open spec fn opt_bool(x: Option<Item>) -> Option<Option<bool>> {
    match x {
        None => Some(None),
        Some(it) => match as_bool(it) {
            Some(b) => Some(Some(b)),
            None => None,
        },
    }
}

/// A flag: `false` where the field is absent, its truth value where it is
/// present; `None` where it is present and no truth value.
pub open spec fn flag(x: Option<Item>) -> Option<bool> {
    match x {
        None => Some(false),
        Some(it) => as_bool(it),
    }
}

/// The item of an optional unsigned integer.
pub open spec fn opt_unsigned_item(x: Option<u64>) -> Option<Item> {
    match x {
        Some(n) => Some(Item::Unsigned(n)),
        None => None,
    }
}

/// The item of an optional byte string.
pub open spec fn opt_bytes_item(x: Option<Seq<u8>>) -> Option<Item> {
    match x {
        Some(b) => Some(Item::Bytes(b)),
        None => None,
    }
}

/// The item of an optional truth value.
pub open spec fn opt_bool_item(x: Option<bool>) -> Option<Item> {
    match x {
        Some(b) => Some(Item::Bool(b)),
        None => None,
    }
}

/// Whether two texts are the same.
pub fn same_text(a: &str, b: &str) -> (r: bool)
    ensures
        r == (a@ == b@),
{
    let x = a.as_bytes();
    let y = b.as_bytes();
    proof {
        encode_utf8_decode_utf8(a@);
        encode_utf8_decode_utf8(b@);
    }
    if x.len() != y.len() {
        return false;
    }
    let mut i: usize = 0;
    while i < x.len()
        invariant
            i <= x@.len(),
            x@.len() == y@.len(),
            x@ == encode_utf8(a@),
            y@ == encode_utf8(b@),
            forall|k: int| 0 <= k < i ==> x@[k] == y@[k],
        decreases x.len() - i,
    {
        if x[i] != y[i] {
            return false;
        }
        i = i + 1;
    }
    assert(x@ =~= y@);
    true
}

/// The value under the first entry with this key.
pub fn lookup<'a>(entries: &'a Vec<(String, Value)>, key: &str) -> (r: Option<&'a Value>)
    ensures
        match field(entry_views(entries@), key@) {
            Some(it) => r matches Some(v) && v@ == it,
            None => r is None,
        },
{
    let ghost all = entry_views(entries@);
    let mut i: usize = 0;
    assert(all.skip(0) =~= all);
    while i < entries.len()
        invariant
            i <= entries.len(),
            all == entry_views(entries@),
            field(all, key@) == field(all.skip(i as int), key@),
        decreases entries.len() - i,
    {
        assert(all.skip(i as int).drop_first() =~= all.skip(i + 1));
        if same_text(entries[i].0.as_str(), key) {
            return Some(&entries[i].1);
        }
        i = i + 1;
    }
    None
}

/// The entries of a map; nothing for any other value.
pub fn entries_of(value: &Value) -> (r: Option<&Vec<(String, Value)>>)
    ensures
        match value@ {
            Item::TextMap(e) => r matches Some(entries) && entry_views(entries@) == e,
            _ => r is None,
        },
{
    proof {
        lemma_view_of_parts(*value);
    }
    match value {
        Value::TextMap(entries) => Some(entries),
        _ => None,
    }
}

/// Adds an entry at the end of a record.
pub fn put(entries: &mut Vec<(String, Value)>, key: &str, value: Value)
    ensures
        entry_views(final(entries)@) == entry_views(old(entries)@) + one(key@, value@),
{
    entries.push((key.to_owned(), value));
    assert(entry_views(entries@) =~= entry_views(old(entries)@) + one(key@, value@));
}

/// The map with these entries.
pub fn record_value(entries: Vec<(String, Value)>) -> (value: Value)
    ensures
        value@ == Item::TextMap(entry_views(entries@)),
{
    let value = Value::TextMap(entries);
    proof {
        lemma_view_of_parts(value);
    }
    value
}

/// The value that a signed integer is written as.
pub fn int_value(n: i32) -> (value: Value)
    ensures
        value@ == int_item(n),
{
    if n >= 0 {
        Value::Unsigned(n as u64)
    } else {
        Value::Negative((-1 - n) as u64)
    }
}

/// The signed 32-bit integer that a value is.
pub fn i32_in(value: &Value) -> (r: Option<i32>)
    ensures
        r == as_i32(value@),
{
    match value {
        Value::Unsigned(n) => if *n <= 0x7fff_ffff {
            Some(*n as i32)
        } else {
            None
        },
        Value::Negative(n) => if *n <= 0x7fff_ffff {
            Some(-1 - (*n as i32))
        } else {
            None
        },
        _ => None,
    }
}

/// The unsigned 64-bit integer that a value is.
pub fn u64_in(value: &Value) -> (r: Option<u64>)
    ensures
        r == as_u64(value@),
{
    match value {
        Value::Unsigned(n) => Some(*n),
        _ => None,
    }
}

/// The unsigned 32-bit integer that a value is.
pub fn u32_in(value: &Value) -> (r: Option<u32>)
    ensures
        r == as_u32(value@),
{
    match value {
        Value::Unsigned(n) => if *n <= 0xffff_ffff {
            Some(*n as u32)
        } else {
            None
        },
        _ => None,
    }
}

/// The unsigned 8-bit integer that a value is.
pub fn u8_in(value: &Value) -> (r: Option<u8>)
    ensures
        r == as_u8(value@),
{
    match value {
        Value::Unsigned(n) => if *n <= 0xff {
            Some(*n as u8)
        } else {
            None
        },
        _ => None,
    }
}

/// The text that a value is.
pub fn text_in(value: &Value) -> (r: Option<String>)
    ensures
        match as_text(value@) {
            Some(t) => r matches Some(text) && text@ == t,
            None => r is None,
        },
{
    match value {
        Value::Text(t) => Some(t.clone()),
        _ => None,
    }
}

/// The byte string that a value is.
pub fn bytes_in(value: &Value) -> (r: Option<Vec<u8>>)
    ensures
        match as_bytes(value@) {
            Some(b) => r matches Some(bytes) && bytes@ == b,
            None => r is None,
        },
{
    match value {
        Value::Bytes(b) => Some(slice_to_vec(b.as_slice())),
        _ => None,
    }
}

/// The truth value that a value is.
pub fn bool_in(value: &Value) -> (r: Option<bool>)
    ensures
        r == as_bool(value@),
{
    match value {
        Value::Bool(b) => Some(*b),
        _ => None,
    }
}

/// An optional field as an unsigned 8-bit integer.
pub fn opt_u8_in(x: Option<&Value>) -> (r: Option<Option<u8>>)
    ensures
        r == opt_u8(
            match x {
                Some(v) => Some(v@),
                None => None,
            },
        ),
{
    match x {
        None => Some(None),
        Some(v) => match u8_in(v) {
            Some(n) => Some(Some(n)),
            None => None,
        },
    }
}

/// An optional field as an unsigned 32-bit integer.
pub fn opt_u32_in(x: Option<&Value>) -> (r: Option<Option<u32>>)
    ensures
        r == opt_u32(
            match x {
                Some(v) => Some(v@),
                None => None,
            },
        ),
{
    match x {
        None => Some(None),
        Some(v) => match u32_in(v) {
            Some(n) => Some(Some(n)),
            None => None,
        },
    }
}

/// An optional field as an unsigned 64-bit integer.
pub fn opt_u64_in(x: Option<&Value>) -> (r: Option<Option<u64>>)
    ensures
        r == opt_u64(
            match x {
                Some(v) => Some(v@),
                None => None,
            },
        ),
{
    match x {
        None => Some(None),
        Some(v) => match u64_in(v) {
            Some(n) => Some(Some(n)),
            None => None,
        },
    }
}

/// An optional field as a signed 32-bit integer.
pub fn opt_i32_in(x: Option<&Value>) -> (r: Option<Option<i32>>)
    ensures
        r == opt_i32(
            match x {
                Some(v) => Some(v@),
                None => None,
            },
        ),
{
    match x {
        None => Some(None),
        Some(v) => match i32_in(v) {
            Some(n) => Some(Some(n)),
            None => None,
        },
    }
}

/// An optional field as a truth value.
pub fn opt_bool_in(x: Option<&Value>) -> (r: Option<Option<bool>>)
    ensures
        r == opt_bool(
            match x {
                Some(v) => Some(v@),
                None => None,
            },
        ),
{
    match x {
        None => Some(None),
        Some(v) => match bool_in(v) {
            Some(b) => Some(Some(b)),
            None => None,
        },
    }
}

/// A flag that is `false` where its field is absent.
pub fn flag_in(x: Option<&Value>) -> (r: Option<bool>)
    ensures
        r == flag(
            match x {
                Some(v) => Some(v@),
                None => None,
            },
        ),
{
    match x {
        None => Some(false),
        Some(v) => bool_in(v),
    }
}

/// An optional field as a byte string.
pub fn opt_bytes_in(x: Option<&Value>) -> (r: Option<Option<Vec<u8>>>)
    ensures
        match opt_bytes(
            match x {
                Some(v) => Some(v@),
                None => None,
            },
        ) {
            Some(Some(b)) => r matches Some(Some(bytes)) && bytes@ == b,
            Some(None) => r == Some(None::<Vec<u8>>),
            None => r is None,
        },
{
    match x {
        None => Some(None),
        Some(v) => match bytes_in(v) {
            Some(b) => Some(Some(b)),
            None => None,
        },
    }
}

/// Adds an entry at the end of a record where there is a value for it.
pub fn put_optional(entries: &mut Vec<(String, Value)>, key: &str, value: Option<Value>)
    ensures
        entry_views(final(entries)@) == entry_views(old(entries)@) + maybe(
            key@,
            match value {
                Some(v) => Some(v@),
                None => None,
            },
        ),
{
    match value {
        Some(v) => {
            put(entries, key, v);
        },
        None => {
            assert(entry_views(entries@) + Seq::<(Seq<char>, Item)>::empty() =~= entry_views(
                entries@,
            ));
        },
    }
}

/// The items that a list of texts is written as.
pub open spec fn text_items(texts: Seq<Seq<char>>) -> Seq<Item> {
    Seq::new(texts.len(), |i: int| Item::Text(texts[i]))
}

/// The texts that a list of strings stands for.
pub open spec fn string_views(strings: Seq<String>) -> Seq<Seq<char>> {
    Seq::new(strings.len(), |i: int| strings[i]@)
}

/// The list of texts that an item is: an array of text strings.
pub open spec fn as_text_list(it: Item) -> Option<Seq<Seq<char>>> {
    match it {
        Item::Array(items) => if forall|i: int| 0 <= i < items.len() ==> (#[trigger] items[i]) is Text {
            Some(Seq::new(items.len(), |i: int| items[i]->Text_0))
        } else {
            None
        },
        _ => None,
    }
}

/// A list of texts is read back from its array, which is nested one deep.
pub proof fn lemma_text_list_round_trip(texts: Seq<Seq<char>>)
    ensures
        as_text_list(Item::Array(text_items(texts))) == Some(texts),
        within_depth(Item::Array(text_items(texts)), 1),
{
    let items = text_items(texts);
    assert(Seq::new(items.len(), |i: int| items[i]->Text_0) =~= texts);
    reveal_with_fuel(within_depth, 2);
}

/// The array that a list of strings is written as.
pub fn text_list_value(strings: &Vec<String>) -> (value: Value)
    ensures
        value@ == Item::Array(text_items(string_views(strings@))),
{
    let mut items: Vec<Value> = Vec::new();
    let mut i: usize = 0;
    while i < strings.len()
        invariant
            i <= strings.len(),
            items@.len() == i,
            forall|k: int| 0 <= k < i ==> (#[trigger] items@[k])@ == Item::Text(strings@[k]@),
        decreases strings.len() - i,
    {
        items.push(Value::Text(strings[i].clone()));
        i = i + 1;
    }
    let value = Value::Array(items);
    proof {
        lemma_view_of_parts(value);
        assert(item_views(items@) =~= text_items(string_views(strings@)));
    }
    value
}

/// The list of strings that a value is.
pub fn text_list_in(value: &Value) -> (r: Option<Vec<String>>)
    ensures
        match as_text_list(value@) {
            Some(texts) => r matches Some(strings) && string_views(strings@) == texts,
            None => r is None,
        },
{
    proof {
        lemma_view_of_parts(*value);
    }
    match value {
        Value::Array(items) => {
            let ghost all = item_views(items@);
            let mut strings: Vec<String> = Vec::new();
            let mut i: usize = 0;
            while i < items.len()
                invariant
                    i <= items.len(),
                    all == item_views(items@),
                    value@ == Item::Array(all),
                    strings@.len() == i,
                    forall|k: int| 0 <= k < i ==> (#[trigger] all[k]) is Text,
                    forall|k: int|
                        0 <= k < i ==> (#[trigger] strings@[k])@ == all[k]->Text_0,
                decreases items.len() - i,
            {
                match text_in(&items[i]) {
                    Some(text) => {
                        strings.push(text);
                    },
                    None => {
                        assert(!(all[i as int] is Text));
                        return None;
                    },
                }
                i = i + 1;
            }
            assert(string_views(strings@) =~= Seq::new(all.len(), |i: int| all[i]->Text_0));
            Some(strings)
        },
        _ => None,
    }
}

} // verus!
