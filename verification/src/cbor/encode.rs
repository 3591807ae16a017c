//! Writing data items.

use vstd::prelude::*;
use crate::cbor::head::{
    write_head, MAJOR_ARRAY, MAJOR_BYTES, MAJOR_MAP, MAJOR_NEGATIVE, MAJOR_TEXT, MAJOR_UNSIGNED,
};
use crate::cbor::value::{
    entries_bytes, entry_views, item_bytes, item_views, items_bytes, lemma_view_of_parts,
    text_bytes, Item, Value, SIMPLE_FALSE, SIMPLE_NULL, SIMPLE_TRUE,
};

verus! {

/// The bytes of an array grow by the bytes of the item it grows by.
pub proof fn lemma_items_bytes_push(items: Seq<Item>, last: Item)
    ensures
        items_bytes(items.push(last)) == items_bytes(items) + item_bytes(last),
    decreases items.len(),
{
    let longer = items.push(last);
    if items.len() == 0 {
        assert(longer.drop_first() =~= Seq::<Item>::empty());
        assert(items_bytes(longer.drop_first()) =~= Seq::<u8>::empty());
        assert(items_bytes(longer) =~= item_bytes(last));
        assert(items_bytes(items) + item_bytes(last) =~= item_bytes(last));
    } else {
        lemma_items_bytes_push(items.drop_first(), last);
        assert(longer.drop_first() =~= items.drop_first().push(last));
        assert(longer[0] == items[0]);
        assert(items_bytes(longer) =~= items_bytes(items) + item_bytes(last));
    }
}

/// The bytes of a map grow by the bytes of the entry it grows by.
pub proof fn lemma_entries_bytes_push(entries: Seq<(Seq<char>, Item)>, last: (Seq<char>, Item))
    ensures
        entries_bytes(entries.push(last)) == entries_bytes(entries) + text_bytes(last.0)
            + item_bytes(last.1),
    decreases entries.len(),
{
    let longer = entries.push(last);
    if entries.len() == 0 {
        assert(longer.drop_first() =~= Seq::<(Seq<char>, Item)>::empty());
        assert(entries_bytes(longer.drop_first()) =~= Seq::<u8>::empty());
        assert(entries_bytes(longer) =~= text_bytes(last.0) + item_bytes(last.1));
        assert(entries_bytes(entries) + text_bytes(last.0) + item_bytes(last.1) =~= text_bytes(
            last.0,
        ) + item_bytes(last.1));
    } else {
        lemma_entries_bytes_push(entries.drop_first(), last);
        assert(longer.drop_first() =~= entries.drop_first().push(last));
        assert(longer[0] == entries[0]);
        assert(entries_bytes(longer) =~= entries_bytes(entries) + text_bytes(last.0)
            + item_bytes(last.1));
    }
}

/// Appends all of `bytes`.
pub fn write_bytes(out: &mut Vec<u8>, bytes: &[u8])
    ensures
        final(out)@ == old(out)@ + bytes@,
{
    out.extend_from_slice(bytes);
    assert(out@ =~= old(out)@ + bytes@);
}

/// Appends a text string.
pub fn write_text(out: &mut Vec<u8>, text: &str)
    ensures
        final(out)@ == old(out)@ + text_bytes(text@),
{
    let raw = text.as_bytes();
    write_head(out, MAJOR_TEXT, raw.len() as u64);
    write_bytes(out, raw);
    assert(out@ =~= old(out)@ + text_bytes(text@));
}

/// Appends the bytes of `value`.
pub fn write_item(out: &mut Vec<u8>, value: &Value)
    ensures
        final(out)@ == old(out)@ + item_bytes(value@),
    decreases value,
{
    match value {
        Value::Unsigned(n) => {
            write_head(out, MAJOR_UNSIGNED, *n);
        },
        Value::Negative(n) => {
            write_head(out, MAJOR_NEGATIVE, *n);
        },
        Value::Bytes(b) => {
            write_head(out, MAJOR_BYTES, b.len() as u64);
            write_bytes(out, b.as_slice());
            assert(out@ =~= old(out)@ + item_bytes(value@));
        },
        Value::Text(t) => {
            write_text(out, t.as_str());
        },
        Value::Array(items) => {
            proof {
                lemma_view_of_parts(*value);
            }
            write_head(out, MAJOR_ARRAY, items.len() as u64);
            let ghost start = out@;
            let mut i: usize = 0;
            while i < items.len()
                invariant
                    i <= items.len(),
                    *value == Value::Array(*items),
                    out@ == start + items_bytes(item_views(items@).take(i as int)),
                decreases items.len() - i,
            {
                proof {
                    let views = item_views(items@);
                    lemma_items_bytes_push(views.take(i as int), views[i as int]);
                    assert(views.take(i + 1) =~= views.take(i as int).push(views[i as int]));
                    assert(value->Array_0 == *items);
                    assert(decreases_to!(*value => value->Array_0));
                    assert(decreases_to!(*items => items@));
                    assert(decreases_to!(items@ => items@[i as int]));
                    assert(decreases_to!(*value => items@[i as int]));
                }
                write_item(out, &items[i]);
                i = i + 1;
                assert(out@ =~= start + items_bytes(item_views(items@).take(i as int)));
            }
            assert(item_views(items@).take(i as int) =~= item_views(items@));
            assert(out@ =~= old(out)@ + item_bytes(value@));
        },
        Value::TextMap(entries) => {
            proof {
                lemma_view_of_parts(*value);
            }
            write_head(out, MAJOR_MAP, entries.len() as u64);
            let ghost start = out@;
            let mut i: usize = 0;
            while i < entries.len()
                invariant
                    i <= entries.len(),
                    *value == Value::TextMap(*entries),
                    out@ == start + entries_bytes(entry_views(entries@).take(i as int)),
                decreases entries.len() - i,
            {
                proof {
                    let views = entry_views(entries@);
                    lemma_entries_bytes_push(views.take(i as int), views[i as int]);
                    assert(views.take(i + 1) =~= views.take(i as int).push(views[i as int]));
                    assert(value->TextMap_0 == *entries);
                    assert(decreases_to!(*value => value->TextMap_0));
                    assert(decreases_to!(*entries => entries@));
                    assert(decreases_to!(entries@ => entries@[i as int]));
                    assert(decreases_to!(entries@[i as int] => entries@[i as int].1));
                    assert(decreases_to!(*value => entries@[i as int].1));
                }
                write_text(out, entries[i].0.as_str());
                write_item(out, &entries[i].1);
                i = i + 1;
                assert(out@ =~= start + entries_bytes(entry_views(entries@).take(i as int)));
            }
            assert(entry_views(entries@).take(i as int) =~= entry_views(entries@));
            assert(out@ =~= old(out)@ + item_bytes(value@));
        },
        Value::Bool(b) => {
            if *b {
                out.push(SIMPLE_TRUE);
            } else {
                out.push(SIMPLE_FALSE);
            }
            assert(out@ =~= old(out)@ + item_bytes(value@));
        },
        Value::Null => {
            out.push(SIMPLE_NULL);
            assert(out@ =~= old(out)@ + item_bytes(value@));
        },
    }
}

/// The bytes of `value`, on their own.
pub fn encode(value: &Value) -> (out: Vec<u8>)
    ensures
        out@ == item_bytes(value@),
{
    let mut out: Vec<u8> = Vec::new();
    write_item(&mut out, value);
    assert(out@ =~= item_bytes(value@));
    out
}

} // verus!
