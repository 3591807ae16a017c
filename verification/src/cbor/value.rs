//! Data items: the values a payload is made of, what they stand for, and
//! the bytes they are written as.

use vstd::prelude::*;
use vstd::utf8::{decode_utf8, encode_utf8, valid_utf8};
use crate::cbor::head::{
    head_bytes, parse_head, MAJOR_ARRAY, MAJOR_BYTES, MAJOR_MAP, MAJOR_NEGATIVE, MAJOR_SIMPLE,
    MAJOR_TEXT, MAJOR_UNSIGNED,
};

verus! {

/// A data item as a mathematical value.
pub enum Item {
    /// An unsigned integer.
    Unsigned(u64),
    /// The negative integer `-1 - n`.
    Negative(u64),
    /// A byte string.
    Bytes(Seq<u8>),
    /// A text string.
    Text(Seq<char>),
    /// An array of items.
    Array(Seq<Item>),
    /// A map with text keys, its entries in the order they are written.
    TextMap(Seq<(Seq<char>, Item)>),
    /// `false` or `true`.
    Bool(bool),
    /// `null`.
    Null,
}

/// A data item in memory.
#[derive(Debug, PartialEq, Eq)]
pub enum Value {
    Unsigned(u64),
    Negative(u64),
    Bytes(Vec<u8>),
    Text(String),
    Array(Vec<Value>),
    TextMap(Vec<(String, Value)>),
    Bool(bool),
    Null,
}

/// What a value stands for.
pub open spec fn item_of(v: Value) -> Item
    decreases v,
{
    match v {
        Value::Unsigned(n) => Item::Unsigned(n),
        Value::Negative(n) => Item::Negative(n),
        Value::Bytes(b) => Item::Bytes(b@),
        Value::Text(t) => Item::Text(t@),
        Value::Array(items) => Item::Array(
            Seq::new(
                items@.len(),
                |i: int|
                    if 0 <= i < items@.len() {
                        item_of(items@[i])
                    } else {
                        Item::Null
                    },
            ),
        ),
        Value::TextMap(entries) => Item::TextMap(
            Seq::new(
                entries@.len(),
                |i: int|
                    if 0 <= i < entries@.len() {
                        (entries@[i].0@, item_of(entries@[i].1))
                    } else {
                        (Seq::empty(), Item::Null)
                    },
            ),
        ),
        Value::Bool(b) => Item::Bool(b),
        Value::Null => Item::Null,
    }
}

impl View for Value {
    type V = Item;

    open spec fn view(&self) -> Item {
        item_of(*self)
    }
}

/// What a sequence of values stands for, one by one.
pub open spec fn item_views(values: Seq<Value>) -> Seq<Item> {
    Seq::new(values.len(), |i: int| values[i]@)
}

/// What a sequence of map entries stands for, one by one.
pub open spec fn entry_views(entries: Seq<(String, Value)>) -> Seq<(Seq<char>, Item)> {
    Seq::new(entries.len(), |i: int| (entries[i].0@, entries[i].1@))
}

/// The view of an array or a map is the view of its parts.
pub proof fn lemma_view_of_parts(v: Value)
    ensures
        v matches Value::Array(items) ==> v@ == Item::Array(item_views(items@)),
        v matches Value::TextMap(entries) ==> v@ == Item::TextMap(entry_views(entries@)),
{
    match v {
        Value::Array(items) => {
            assert(v@->Array_0 =~= item_views(items@));
        },
        Value::TextMap(entries) => {
            assert(v@->TextMap_0 =~= entry_views(entries@));
        },
        _ => {},
    }
}

/// The most deeply nested item that is read or written sits this many
/// arrays and maps down.
pub const MAX_DEPTH: usize = 16;

/// The first byte of `false`.
pub const SIMPLE_FALSE: u8 = 0xf4;

/// The first byte of `true`.
pub const SIMPLE_TRUE: u8 = 0xf5;

/// The first byte of `null`.
pub const SIMPLE_NULL: u8 = 0xf6;

/// The byte that opens an array whose length is not announced.
pub const OPEN_ARRAY: u8 = 0x9f;

/// The byte that opens a map whose length is not announced.
pub const OPEN_MAP: u8 = 0xbf;

/// The byte that closes an array or a map whose length is not announced.
pub const BREAK: u8 = 0xff;

/// The bytes of a text string: a head with the length of its UTF-8 form,
/// then that form.
pub open spec fn text_bytes(t: Seq<char>) -> Seq<u8> {
    head_bytes(MAJOR_TEXT, encode_utf8(t).len() as u64) + encode_utf8(t)
}

/// The bytes of an item: its head, then what the head announces. Integers
/// and lengths take the shortest head.
pub open spec fn item_bytes(it: Item) -> Seq<u8>
    decreases it,
{
    match it {
        Item::Unsigned(n) => head_bytes(MAJOR_UNSIGNED, n),
        Item::Negative(n) => head_bytes(MAJOR_NEGATIVE, n),
        Item::Bytes(b) => head_bytes(MAJOR_BYTES, b.len() as u64) + b,
        Item::Text(t) => text_bytes(t),
        Item::Array(items) => head_bytes(MAJOR_ARRAY, items.len() as u64) + items_bytes(items),
        Item::TextMap(entries) => head_bytes(MAJOR_MAP, entries.len() as u64) + entries_bytes(
            entries,
        ),
        Item::Bool(b) => seq![if b { SIMPLE_TRUE } else { SIMPLE_FALSE }],
        Item::Null => seq![SIMPLE_NULL],
    }
}

/// The bytes of the items of an array, one after the other.
pub open spec fn items_bytes(items: Seq<Item>) -> Seq<u8>
    decreases items,
{
    if items.len() == 0 {
        Seq::empty()
    } else {
        item_bytes(items[0]) + items_bytes(items.drop_first())
    }
}

/// The bytes of the entries of a map: key, value, key, value.
pub open spec fn entries_bytes(entries: Seq<(Seq<char>, Item)>) -> Seq<u8>
    decreases entries,
{
    if entries.len() == 0 {
        Seq::empty()
    } else {
        text_bytes(entries[0].0) + item_bytes(entries[0].1) + entries_bytes(
            entries.drop_first(),
        )
    }
}

/// No array or map of `it` sits more than `depth` arrays and maps down.
pub open spec fn within_depth(it: Item, depth: nat) -> bool
    decreases it,
{
    match it {
        Item::Array(items) => depth > 0 && forall|i: int|
            0 <= i < items.len() ==> within_depth(#[trigger] items[i], (depth - 1) as nat),
        Item::TextMap(entries) => depth > 0 && forall|i: int|
            0 <= i < entries.len() ==> within_depth(
                (#[trigger] entries[i]).1,
                (depth - 1) as nat,
            ),
        _ => true,
    }
}

/// The text string that `s` starts with, and the bytes it takes.
pub open spec fn parse_text(s: Seq<u8>) -> Option<(Seq<char>, nat)> {
    match parse_head(s) {
        Some(h) => {
            let raw = s.subrange(h.len as int, h.len + h.arg);
            if h.major == MAJOR_TEXT && h.len + h.arg <= s.len() && valid_utf8(raw) {
                Some((decode_utf8(raw), h.len + h.arg as nat))
            } else {
                None
            }
        },
        None => None,
    }
}

/// The item that `s` starts with, and the bytes it takes. An array or a map
/// may announce its length or be closed by a break. Nothing is read below
/// `depth` arrays and maps; tags, floating-point numbers, strings in chunks,
/// map keys that are no text and text that is no UTF-8 are no item.
pub open spec fn parse_item(s: Seq<u8>, depth: nat) -> Option<(Item, nat)>
    decreases s.len(), 1nat,
{
    match parse_head(s) {
        None => parse_open(s, depth),
        Some(h) => {
            if h.len > s.len() || h.len == 0 {
                None
            } else if h.major == MAJOR_UNSIGNED {
                Some((Item::Unsigned(h.arg), h.len))
            } else if h.major == MAJOR_NEGATIVE {
                Some((Item::Negative(h.arg), h.len))
            } else if h.major == MAJOR_BYTES {
                if h.len + h.arg <= s.len() {
                    Some(
                        (
                            Item::Bytes(s.subrange(h.len as int, h.len + h.arg)),
                            h.len + h.arg as nat,
                        ),
                    )
                } else {
                    None
                }
            } else if h.major == MAJOR_TEXT {
                match parse_text(s) {
                    Some((t, used)) => Some((Item::Text(t), used)),
                    None => None,
                }
            } else if h.major == MAJOR_ARRAY {
                if depth == 0 {
                    None
                } else {
                    match parse_items(s.skip(h.len as int), h.arg as nat, (depth - 1) as nat) {
                        Some((items, used)) => Some((Item::Array(items), h.len + used)),
                        None => None,
                    }
                }
            } else if h.major == MAJOR_MAP {
                if depth == 0 {
                    None
                } else {
                    match parse_entries(s.skip(h.len as int), h.arg as nat, (depth - 1) as nat) {
                        Some((entries, used)) => Some((Item::TextMap(entries), h.len + used)),
                        None => None,
                    }
                }
            } else if h.major == MAJOR_SIMPLE && h.len == 1 {
                if s[0] == SIMPLE_FALSE {
                    Some((Item::Bool(false), 1))
                } else if s[0] == SIMPLE_TRUE {
                    Some((Item::Bool(true), 1))
                } else if s[0] == SIMPLE_NULL {
                    Some((Item::Null, 1))
                } else {
                    None
                }
            } else {
                None
            }
        },
    }
}

/// The `count` items that `s` starts with, and the bytes they take.
pub open spec fn parse_items(s: Seq<u8>, count: nat, depth: nat) -> Option<(Seq<Item>, nat)>
    decreases s.len(), count + 2,
{
    if count == 0 {
        Some((Seq::empty(), 0))
    } else {
        match parse_item(s, depth) {
            Some((first, used)) => if used > s.len() {
                None
            } else {
                match parse_items(s.skip(used as int), (count - 1) as nat, depth) {
                    Some((others, more)) => Some((seq![first] + others, used + more)),
                    None => None,
                }
            },
            None => None,
        }
    }
}

/// The `count` map entries that `s` starts with, and the bytes they take.
pub open spec fn parse_entries(s: Seq<u8>, count: nat, depth: nat) -> Option<
    (Seq<(Seq<char>, Item)>, nat),
>
    decreases s.len(), count + 2,
{
    if count == 0 {
        Some((Seq::empty(), 0))
    } else {
        match parse_text(s) {
            Some((key, key_used)) => if key_used > s.len() {
                None
            } else {
                match parse_item(s.skip(key_used as int), depth) {
                    Some((value, value_used)) => if key_used + value_used > s.len() {
                        None
                    } else {
                        match parse_entries(
                            s.skip((key_used + value_used) as int),
                            (count - 1) as nat,
                            depth,
                        ) {
                            Some((others, more)) => Some(
                                (seq![(key, value)] + others, key_used + value_used + more),
                            ),
                            None => None,
                        }
                    },
                    None => None,
                }
            },
            None => None,
        }
    }
}

/// The array or the map that `s` starts with, where it is one that is
/// closed by a break, and the bytes it takes.
pub open spec fn parse_open(s: Seq<u8>, depth: nat) -> Option<(Item, nat)>
    decreases s.len(), 0nat,
{
    if s.len() == 0 || depth == 0 {
        None
    } else if s[0] == OPEN_ARRAY {
        match parse_open_items(s.skip(1), (depth - 1) as nat) {
            Some((items, used)) => Some((Item::Array(items), 1 + used)),
            None => None,
        }
    } else if s[0] == OPEN_MAP {
        match parse_open_entries(s.skip(1), (depth - 1) as nat) {
            Some((entries, used)) => Some((Item::TextMap(entries), 1 + used)),
            None => None,
        }
    } else {
        None
    }
}

/// The items that `s` starts with, up to a break, and the bytes that they
/// and the break take.
pub open spec fn parse_open_items(s: Seq<u8>, depth: nat) -> Option<(Seq<Item>, nat)>
    decreases s.len(), 2nat,
{
    if s.len() == 0 {
        None
    } else if s[0] == BREAK {
        Some((Seq::empty(), 1))
    } else {
        match parse_item(s, depth) {
            Some((first, used)) => if used == 0 || used > s.len() {
                None
            } else {
                match parse_open_items(s.skip(used as int), depth) {
                    Some((others, more)) => Some((seq![first] + others, used + more)),
                    None => None,
                }
            },
            None => None,
        }
    }
}

/// The map entries that `s` starts with, up to a break, and the bytes that
/// they and the break take.
pub open spec fn parse_open_entries(s: Seq<u8>, depth: nat) -> Option<
    (Seq<(Seq<char>, Item)>, nat),
>
    decreases s.len(), 2nat,
{
    if s.len() == 0 {
        None
    } else if s[0] == BREAK {
        Some((Seq::empty(), 1))
    } else {
        match parse_text(s) {
            Some((key, key_used)) => if key_used == 0 || key_used > s.len() {
                None
            } else {
                match parse_item(s.skip(key_used as int), depth) {
                    Some((value, value_used)) => if key_used + value_used > s.len() {
                        None
                    } else {
                        match parse_open_entries(s.skip((key_used + value_used) as int), depth) {
                            Some((others, more)) => Some(
                                (seq![(key, value)] + others, key_used + value_used + more),
                            ),
                            None => None,
                        }
                    },
                    None => None,
                }
            },
            None => None,
        }
    }
}

/// The item that `s` is, from its first byte to its last.
pub open spec fn parse_whole(s: Seq<u8>) -> Option<Item> {
    match parse_item(s, MAX_DEPTH as nat) {
        Some((it, used)) => if used == s.len() {
            Some(it)
        } else {
            None
        },
        None => None,
    }
}

} // verus!
