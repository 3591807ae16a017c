//! What is written is read back.

use vstd::prelude::*;
use vstd::utf8::{encode_utf8, encode_utf8_decode_utf8, encode_utf8_valid_utf8};
use crate::cbor::head::{
    head_bytes, lemma_head_bytes_len, lemma_head_round_trip, MAJOR_ARRAY, MAJOR_BYTES, MAJOR_MAP,
    MAJOR_NEGATIVE, MAJOR_TEXT, MAJOR_UNSIGNED,
};
use crate::cbor::value::{
    entries_bytes, item_bytes, items_bytes, parse_entries, parse_item, parse_items, parse_text,
    parse_whole, text_bytes, within_depth, Item, MAX_DEPTH,
};

verus! {

/// A text string takes its UTF-8 form and a head.
pub proof fn lemma_text_bytes_len(t: Seq<char>)
    ensures
        encode_utf8(t).len() < text_bytes(t).len() <= encode_utf8(t).len() + 9,
{
    lemma_head_bytes_len(MAJOR_TEXT, encode_utf8(t).len() as u64);
}

/// Every item takes at least one byte, and holds no more items and bytes
/// than it takes bytes.
pub proof fn lemma_item_bytes_len(it: Item)
    ensures
        item_bytes(it).len() >= 1,
        it matches Item::Bytes(b) ==> b.len() < item_bytes(it).len(),
        it matches Item::Text(t) ==> encode_utf8(t).len() < item_bytes(it).len(),
        it matches Item::Array(items) ==> items.len() < item_bytes(it).len() && items_bytes(
            items,
        ).len() < item_bytes(it).len(),
        it matches Item::TextMap(entries) ==> entries.len() < item_bytes(it).len()
            && entries_bytes(entries).len() < item_bytes(it).len(),
    decreases it, 0nat,
{
    match it {
        Item::Unsigned(n) => {
            lemma_head_bytes_len(MAJOR_UNSIGNED, n);
        },
        Item::Negative(n) => {
            lemma_head_bytes_len(MAJOR_NEGATIVE, n);
        },
        Item::Bytes(b) => {
            lemma_head_bytes_len(MAJOR_BYTES, b.len() as u64);
        },
        Item::Text(t) => {
            lemma_text_bytes_len(t);
        },
        Item::Array(items) => {
            lemma_head_bytes_len(MAJOR_ARRAY, items.len() as u64);
            lemma_items_bytes_len(items);
        },
        Item::TextMap(entries) => {
            lemma_head_bytes_len(MAJOR_MAP, entries.len() as u64);
            lemma_entries_bytes_len(entries);
        },
        Item::Bool(b) => {},
        Item::Null => {},
    }
}

/// The items of an array take at least a byte each.
pub proof fn lemma_items_bytes_len(items: Seq<Item>)
    ensures
        items_bytes(items).len() >= items.len(),
        items.len() > 0 ==> items_bytes(items).len() == item_bytes(items[0]).len() + items_bytes(
            items.drop_first(),
        ).len(),
    decreases items, 1nat,
{
    if items.len() > 0 {
        lemma_item_bytes_len(items[0]);
        lemma_items_bytes_len(items.drop_first());
    }
}

/// The entries of a map take at least two bytes each.
pub proof fn lemma_entries_bytes_len(entries: Seq<(Seq<char>, Item)>)
    ensures
        entries_bytes(entries).len() >= entries.len(),
        entries.len() > 0 ==> entries_bytes(entries).len() == text_bytes(entries[0].0).len()
            + item_bytes(entries[0].1).len() + entries_bytes(entries.drop_first()).len(),
    decreases entries, 1nat,
{
    if entries.len() > 0 {
        lemma_text_bytes_len(entries[0].0);
        lemma_item_bytes_len(entries[0].1);
        lemma_entries_bytes_len(entries.drop_first());
    }
}

/// A text string is read back from its bytes, whatever follows them.
pub proof fn lemma_text_round_trip(t: Seq<char>, rest: Seq<u8>)
    requires
        encode_utf8(t).len() <= u64::MAX,
    ensures
        parse_text(text_bytes(t) + rest) == Some((t, text_bytes(t).len())),
{
    let raw = encode_utf8(t);
    let head = head_bytes(MAJOR_TEXT, raw.len() as u64);
    let s = text_bytes(t) + rest;
    assert(s =~= head + (raw + rest));
    lemma_head_round_trip(MAJOR_TEXT, raw.len() as u64, raw + rest);
    lemma_head_bytes_len(MAJOR_TEXT, raw.len() as u64);
    assert(s.subrange(head.len() as int, (head.len() + raw.len()) as int) =~= raw);
    encode_utf8_valid_utf8(t);
    encode_utf8_decode_utf8(t);
}

/// An item is read back from its bytes, whatever follows them, where it is
/// not nested deeper than is read.
pub proof fn lemma_item_round_trip(it: Item, depth: nat, rest: Seq<u8>)
    requires
        within_depth(it, depth),
        item_bytes(it).len() <= u64::MAX,
    ensures
        parse_item(item_bytes(it) + rest, depth) == Some((it, item_bytes(it).len())),
    decreases it, 0nat,
{
    let s = item_bytes(it) + rest;
    lemma_item_bytes_len(it);
    match it {
        Item::Unsigned(n) => {
            lemma_head_round_trip(MAJOR_UNSIGNED, n, rest);
            lemma_head_bytes_len(MAJOR_UNSIGNED, n);
        },
        Item::Negative(n) => {
            lemma_head_round_trip(MAJOR_NEGATIVE, n, rest);
            lemma_head_bytes_len(MAJOR_NEGATIVE, n);
        },
        Item::Bytes(b) => {
            let head = head_bytes(MAJOR_BYTES, b.len() as u64);
            assert(s =~= head + (b + rest));
            lemma_head_round_trip(MAJOR_BYTES, b.len() as u64, b + rest);
            lemma_head_bytes_len(MAJOR_BYTES, b.len() as u64);
            assert(s.subrange(head.len() as int, (head.len() + b.len()) as int) =~= b);
        },
        Item::Text(t) => {
            let raw = encode_utf8(t);
            let head = head_bytes(MAJOR_TEXT, raw.len() as u64);
            assert(s =~= head + (raw + rest));
            lemma_head_round_trip(MAJOR_TEXT, raw.len() as u64, raw + rest);
            lemma_head_bytes_len(MAJOR_TEXT, raw.len() as u64);
            lemma_text_round_trip(t, rest);
        },
        Item::Array(items) => {
            let head = head_bytes(MAJOR_ARRAY, items.len() as u64);
            let body = items_bytes(items);
            assert(s =~= head + (body + rest));
            lemma_head_round_trip(MAJOR_ARRAY, items.len() as u64, body + rest);
            lemma_head_bytes_len(MAJOR_ARRAY, items.len() as u64);
            assert(s.skip(head.len() as int) =~= body + rest);
            lemma_items_round_trip(items, (depth - 1) as nat, rest);
        },
        Item::TextMap(entries) => {
            let head = head_bytes(MAJOR_MAP, entries.len() as u64);
            let body = entries_bytes(entries);
            assert(s =~= head + (body + rest));
            lemma_head_round_trip(MAJOR_MAP, entries.len() as u64, body + rest);
            lemma_head_bytes_len(MAJOR_MAP, entries.len() as u64);
            assert(s.skip(head.len() as int) =~= body + rest);
            lemma_entries_round_trip(entries, (depth - 1) as nat, rest);
        },
        Item::Bool(b) => {
            assert(s[0] == item_bytes(it)[0]);
        },
        Item::Null => {
            assert(s[0] == item_bytes(it)[0]);
        },
    }
}

/// The items of an array are read back from their bytes.
pub proof fn lemma_items_round_trip(items: Seq<Item>, depth: nat, rest: Seq<u8>)
    requires
        forall|i: int| 0 <= i < items.len() ==> within_depth(#[trigger] items[i], depth),
        items_bytes(items).len() <= u64::MAX,
    ensures
        parse_items(items_bytes(items) + rest, items.len(), depth) == Some(
            (items, items_bytes(items).len()),
        ),
    decreases items, 1nat,
{
    if items.len() > 0 {
        let first = item_bytes(items[0]);
        let tail = items.drop_first();
        let s = items_bytes(items) + rest;
        lemma_items_bytes_len(items);
        assert(s =~= first + (items_bytes(tail) + rest));
        lemma_item_round_trip(items[0], depth, items_bytes(tail) + rest);
        assert(s.skip(first.len() as int) =~= items_bytes(tail) + rest);
        assert forall|i: int| 0 <= i < tail.len() implies within_depth(
            #[trigger] tail[i],
            depth,
        ) by {
            assert(tail[i] == items[i + 1]);
        }
        lemma_items_round_trip(tail, depth, rest);
        assert(seq![items[0]] + tail =~= items);
    } else {
        assert(items =~= Seq::<Item>::empty());
    }
}

/// The entries of a map are read back from their bytes.
pub proof fn lemma_entries_round_trip(
    entries: Seq<(Seq<char>, Item)>,
    depth: nat,
    rest: Seq<u8>,
)
    requires
        forall|i: int| 0 <= i < entries.len() ==> within_depth((#[trigger] entries[i]).1, depth),
        entries_bytes(entries).len() <= u64::MAX,
    ensures
        parse_entries(entries_bytes(entries) + rest, entries.len(), depth) == Some(
            (entries, entries_bytes(entries).len()),
        ),
    decreases entries, 1nat,
{
    if entries.len() > 0 {
        let key = text_bytes(entries[0].0);
        let value = item_bytes(entries[0].1);
        let tail = entries.drop_first();
        let s = entries_bytes(entries) + rest;
        lemma_entries_bytes_len(entries);
        lemma_text_bytes_len(entries[0].0);
        assert(s =~= key + (value + entries_bytes(tail) + rest));
        lemma_text_round_trip(entries[0].0, value + entries_bytes(tail) + rest);
        assert(s.skip(key.len() as int) =~= value + (entries_bytes(tail) + rest));
        lemma_item_round_trip(entries[0].1, depth, entries_bytes(tail) + rest);
        assert(s.skip((key.len() + value.len()) as int) =~= entries_bytes(tail) + rest);
        assert forall|i: int| 0 <= i < tail.len() implies within_depth(
            (#[trigger] tail[i]).1,
            depth,
        ) by {
            assert(tail[i] == entries[i + 1]);
        }
        lemma_entries_round_trip(tail, depth, rest);
        assert(seq![entries[0]] + tail =~= entries);
    } else {
        assert(entries =~= Seq::<(Seq<char>, Item)>::empty());
    }
}

/// Reading the bytes of an item, and nothing else, gives the item.
pub proof fn lemma_whole_round_trip(it: Item)
    requires
        within_depth(it, MAX_DEPTH as nat),
        item_bytes(it).len() <= u64::MAX,
    ensures
        parse_whole(item_bytes(it)) == Some(it),
{
    lemma_item_round_trip(it, MAX_DEPTH as nat, Seq::empty());
    assert(item_bytes(it) + Seq::<u8>::empty() =~= item_bytes(it));
}

} // verus!
