//! Reading data items.

use vstd::prelude::*;
use vstd::slice::{slice_subrange, slice_to_vec};
use vstd::utf8::{decode_utf8, valid_utf8};
use crate::cbor::head::{
    parse_head, read_head, MAJOR_ARRAY, MAJOR_BYTES, MAJOR_MAP, MAJOR_NEGATIVE, MAJOR_SIMPLE,
    MAJOR_TEXT, MAJOR_UNSIGNED,
};
use crate::cbor::value::{
    entry_views, item_views, lemma_view_of_parts, parse_entries, parse_item, parse_items,
    parse_open_entries, parse_open_items, parse_text, parse_whole, Item, Value, BREAK, MAX_DEPTH,
    OPEN_ARRAY, OPEN_MAP, SIMPLE_FALSE, SIMPLE_NULL, SIMPLE_TRUE,
};

verus! {

/// `core::str::from_utf8`: the bytes as text where they are well-formed
/// UTF-8, and nothing where they are not. The text is then the one that
/// these bytes encode.
#[verifier::external_body]
fn utf8_text(bytes: &[u8]) -> (r: Option<&str>)
    ensures
        r is Some <==> valid_utf8(bytes@),
        r matches Some(t) ==> t@ == decode_utf8(bytes@),
{
    match core::str::from_utf8(bytes) {
        Ok(t) => Some(t),
        Err(_) => None,
    }
}

/// Reads the text string at `pos`, and says where the bytes after it start.
pub fn read_text(bytes: &[u8], pos: usize) -> (r: Option<(String, usize)>)
    ensures
        pos <= bytes@.len() ==> match parse_text(bytes@.skip(pos as int)) {
            Some((t, used)) => r matches Some((text, next)) && text@ == t && next == pos + used
                && next <= bytes@.len(),
            None => r is None,
        },
        pos > bytes@.len() ==> r is None,
{
    let ghost s = bytes@.skip(pos as int);
    match read_head(bytes, pos) {
        None => None,
        Some((major, arg, start)) => {
            if major != MAJOR_TEXT {
                return None;
            }
            if arg > (bytes.len() - start) as u64 {
                return None;
            }
            let end: usize = start + arg as usize;
            let raw = slice_subrange(bytes, start, end);
            assert(raw@ =~= s.subrange(start - pos, start - pos + arg));
            match utf8_text(raw) {
                None => None,
                Some(t) => Some((t.to_owned(), end)),
            }
        },
    }
}

/// Reads the item at `pos`, and says where the bytes after it start.
pub fn read_item(bytes: &[u8], pos: usize, depth: usize) -> (r: Option<(Value, usize)>)
    ensures
        pos <= bytes@.len() ==> match parse_item(bytes@.skip(pos as int), depth as nat) {
            Some((it, used)) => r matches Some((value, next)) && value@ == it && next == pos
                + used && next <= bytes@.len(),
            None => r is None,
        },
        pos > bytes@.len() ==> r is None,
    decreases bytes@.len() - pos, 0nat,
{
    let ghost s = bytes@.skip(pos as int);
    match read_head(bytes, pos) {
        None => {
            if pos >= bytes.len() || depth == 0 {
                return None;
            }
            let first: u8 = bytes[pos];
            assert(bytes@.skip(pos + 1) =~= s.skip(1));
            if first == OPEN_ARRAY {
                match read_open_items(bytes, pos + 1, depth - 1) {
                    Some((items, next)) => {
                        let value = Value::Array(items);
                        proof {
                            lemma_view_of_parts(value);
                        }
                        Some((value, next))
                    },
                    None => None,
                }
            } else if first == OPEN_MAP {
                match read_open_entries(bytes, pos + 1, depth - 1) {
                    Some((entries, next)) => {
                        let value = Value::TextMap(entries);
                        proof {
                            lemma_view_of_parts(value);
                        }
                        Some((value, next))
                    },
                    None => None,
                }
            } else {
                None
            }
        },
        Some((major, arg, start)) => {
            proof {
                let h = parse_head(s).unwrap();
                assert(1 <= h.len <= 9);
                assert(start == pos + h.len);
            }
            if major == MAJOR_UNSIGNED {
                Some((Value::Unsigned(arg), start))
            } else if major == MAJOR_NEGATIVE {
                Some((Value::Negative(arg), start))
            } else if major == MAJOR_BYTES {
                if arg > (bytes.len() - start) as u64 {
                    return None;
                }
                let end: usize = start + arg as usize;
                let raw = slice_subrange(bytes, start, end);
                assert(raw@ =~= s.subrange(start - pos, start - pos + arg));
                Some((Value::Bytes(slice_to_vec(raw)), end))
            } else if major == MAJOR_TEXT {
                match read_text(bytes, pos) {
                    Some((text, next)) => Some((Value::Text(text), next)),
                    None => None,
                }
            } else if major == MAJOR_ARRAY {
                if depth == 0 {
                    return None;
                }
                assert(bytes@.skip(start as int) =~= s.skip(start - pos));
                match read_items(bytes, start, arg, depth - 1) {
                    Some((items, next)) => {
                        let value = Value::Array(items);
                        proof {
                            lemma_view_of_parts(value);
                        }
                        Some((value, next))
                    },
                    None => None,
                }
            } else if major == MAJOR_MAP {
                if depth == 0 {
                    return None;
                }
                assert(bytes@.skip(start as int) =~= s.skip(start - pos));
                match read_entries(bytes, start, arg, depth - 1) {
                    Some((entries, next)) => {
                        let value = Value::TextMap(entries);
                        proof {
                            lemma_view_of_parts(value);
                        }
                        Some((value, next))
                    },
                    None => None,
                }
            } else if major == MAJOR_SIMPLE && start - pos == 1 {
                let first: u8 = bytes[pos];
                if first == SIMPLE_FALSE {
                    Some((Value::Bool(false), start))
                } else if first == SIMPLE_TRUE {
                    Some((Value::Bool(true), start))
                } else if first == SIMPLE_NULL {
                    Some((Value::Null, start))
                } else {
                    None
                }
            } else {
                None
            }
        },
    }
}

/// What `parse_items` gives for the whole of an array, once `done` of its
/// items have been read over `used` bytes and `rest` is still to read.
pub open spec fn items_after(
    done: Seq<Item>,
    used: nat,
    rest: Option<(Seq<Item>, nat)>,
) -> Option<(Seq<Item>, nat)> {
    match rest {
        Some((others, more)) => Some((done + others, used + more)),
        None => None,
    }
}

/// Reads `count` items from `pos` on, and says where the bytes after them start.
pub fn read_items(bytes: &[u8], pos: usize, count: u64, depth: usize) -> (r: Option<
    (Vec<Value>, usize),
>)
    ensures
        pos <= bytes@.len() ==> match parse_items(
            bytes@.skip(pos as int),
            count as nat,
            depth as nat,
        ) {
            Some((items, used)) => r matches Some((values, next)) && item_views(values@) == items
                && next == pos + used && next <= bytes@.len(),
            None => r is None,
        },
        pos > bytes@.len() ==> r is None,
    decreases bytes@.len() - pos, 1nat,
{
    if pos > bytes.len() {
        return None;
    }
    let ghost whole = parse_items(bytes@.skip(pos as int), count as nat, depth as nat);
    let mut values: Vec<Value> = Vec::new();
    let mut cur: usize = pos;
    let mut left: u64 = count;
    assert(item_views(values@) + Seq::<Item>::empty() =~= Seq::<Item>::empty());
    assert(whole == items_after(
        item_views(values@),
        0,
        parse_items(bytes@.skip(cur as int), left as nat, depth as nat),
    )) by {
        match parse_items(bytes@.skip(cur as int), left as nat, depth as nat) {
            Some((others, more)) => {
                assert(item_views(values@) + others =~= others);
            },
            None => {},
        }
    }
    while left > 0
        invariant
            pos <= cur <= bytes@.len(),
            whole == parse_items(bytes@.skip(pos as int), count as nat, depth as nat),
            whole == items_after(
                item_views(values@),
                (cur - pos) as nat,
                parse_items(bytes@.skip(cur as int), left as nat, depth as nat),
            ),
        decreases left,
    {
        let ghost s = bytes@.skip(cur as int);
        let ghost before = item_views(values@);
        match read_item(bytes, cur, depth) {
            None => {
                return None;
            },
            Some((value, next)) => {
                proof {
                    assert(s.skip(next - cur) =~= bytes@.skip(next as int));
                    let tail = parse_items(
                        bytes@.skip(next as int),
                        (left - 1) as nat,
                        depth as nat,
                    );
                    assert(item_views(values@.push(value)) =~= before.push(value@));
                    match tail {
                        Some((others, more)) => {
                            assert(before + (seq![value@] + others) =~= before.push(value@)
                                + others);
                        },
                        None => {},
                    }
                }
                values.push(value);
                cur = next;
                left = left - 1;
            },
        }
    }
    assert(item_views(values@) + Seq::<Item>::empty() =~= item_views(values@));
    Some((values, cur))
}

/// What `parse_entries` gives for the whole of a map, once `done` of its
/// entries have been read over `used` bytes and `rest` is still to read.
pub open spec fn entries_after(
    done: Seq<(Seq<char>, Item)>,
    used: nat,
    rest: Option<(Seq<(Seq<char>, Item)>, nat)>,
) -> Option<(Seq<(Seq<char>, Item)>, nat)> {
    match rest {
        Some((others, more)) => Some((done + others, used + more)),
        None => None,
    }
}

/// Reads `count` map entries from `pos` on, and says where the bytes after
/// them start.
pub fn read_entries(bytes: &[u8], pos: usize, count: u64, depth: usize) -> (r: Option<
    (Vec<(String, Value)>, usize),
>)
    ensures
        pos <= bytes@.len() ==> match parse_entries(
            bytes@.skip(pos as int),
            count as nat,
            depth as nat,
        ) {
            Some((entries, used)) => r matches Some((pairs, next)) && entry_views(pairs@)
                == entries && next == pos + used && next <= bytes@.len(),
            None => r is None,
        },
        pos > bytes@.len() ==> r is None,
    decreases bytes@.len() - pos, 1nat,
{
    if pos > bytes.len() {
        return None;
    }
    let ghost whole = parse_entries(bytes@.skip(pos as int), count as nat, depth as nat);
    let mut pairs: Vec<(String, Value)> = Vec::new();
    let mut cur: usize = pos;
    let mut left: u64 = count;
    assert(whole == entries_after(
        entry_views(pairs@),
        0,
        parse_entries(bytes@.skip(cur as int), left as nat, depth as nat),
    )) by {
        match parse_entries(bytes@.skip(cur as int), left as nat, depth as nat) {
            Some((others, more)) => {
                assert(entry_views(pairs@) + others =~= others);
            },
            None => {},
        }
    }
    while left > 0
        invariant
            pos <= cur <= bytes@.len(),
            whole == parse_entries(bytes@.skip(pos as int), count as nat, depth as nat),
            whole == entries_after(
                entry_views(pairs@),
                (cur - pos) as nat,
                parse_entries(bytes@.skip(cur as int), left as nat, depth as nat),
            ),
        decreases left,
    {
        let ghost s = bytes@.skip(cur as int);
        let ghost before = entry_views(pairs@);
        match read_text(bytes, cur) {
            None => {
                return None;
            },
            Some((key, mid)) => {
                assert(s.skip(mid - cur) =~= bytes@.skip(mid as int));
                match read_item(bytes, mid, depth) {
                    None => {
                        return None;
                    },
                    Some((value, next)) => {
                        proof {
                            assert(s.skip(next - cur) =~= bytes@.skip(next as int));
                            let tail = parse_entries(
                                bytes@.skip(next as int),
                                (left - 1) as nat,
                                depth as nat,
                            );
                            assert(entry_views(pairs@.push((key, value))) =~= before.push(
                                (key@, value@),
                            ));
                            match tail {
                                Some((others, more)) => {
                                    assert(before + (seq![(key@, value@)] + others)
                                        =~= before.push((key@, value@)) + others);
                                },
                                None => {},
                            }
                        }
                        pairs.push((key, value));
                        cur = next;
                        left = left - 1;
                    },
                }
            },
        }
    }
    assert(entry_views(pairs@) + Seq::<(Seq<char>, Item)>::empty() =~= entry_views(pairs@));
    Some((pairs, cur))
}

/// Reads items from `pos` on up to a break, and says where the bytes after
/// the break start.
pub fn read_open_items(bytes: &[u8], pos: usize, depth: usize) -> (r: Option<(Vec<Value>, usize)>)
    ensures
        pos <= bytes@.len() ==> match parse_open_items(bytes@.skip(pos as int), depth as nat) {
            Some((items, used)) => r matches Some((values, next)) && item_views(values@) == items
                && next == pos + used && next <= bytes@.len(),
            None => r is None,
        },
        pos > bytes@.len() ==> r is None,
    decreases bytes@.len() - pos, 1nat,
{
    if pos > bytes.len() {
        return None;
    }
    let ghost whole = parse_open_items(bytes@.skip(pos as int), depth as nat);
    let mut values: Vec<Value> = Vec::new();
    let mut cur: usize = pos;
    assert(whole == items_after(
        item_views(values@),
        0,
        parse_open_items(bytes@.skip(cur as int), depth as nat),
    )) by {
        match parse_open_items(bytes@.skip(cur as int), depth as nat) {
            Some((others, more)) => {
                assert(item_views(values@) + others =~= others);
            },
            None => {},
        }
    }
    loop
        invariant
            pos <= cur <= bytes@.len(),
            whole == parse_open_items(bytes@.skip(pos as int), depth as nat),
            whole == items_after(
                item_views(values@),
                (cur - pos) as nat,
                parse_open_items(bytes@.skip(cur as int), depth as nat),
            ),
        decreases bytes@.len() - cur,
    {
        let ghost s = bytes@.skip(cur as int);
        let ghost before = item_views(values@);
        if cur >= bytes.len() {
            return None;
        }
        if bytes[cur] == BREAK {
            assert(s[0] == BREAK);
            assert(before + Seq::<Item>::empty() =~= before);
            return Some((values, cur + 1));
        }
        match read_item(bytes, cur, depth) {
            None => {
                return None;
            },
            Some((value, next)) => {
                if next <= cur {
                    return None;
                }
                proof {
                    assert(s.skip(next - cur) =~= bytes@.skip(next as int));
                    let tail = parse_open_items(bytes@.skip(next as int), depth as nat);
                    assert(item_views(values@.push(value)) =~= before.push(value@));
                    match tail {
                        Some((others, more)) => {
                            assert(before + (seq![value@] + others) =~= before.push(value@)
                                + others);
                        },
                        None => {},
                    }
                }
                values.push(value);
                cur = next;
            },
        }
    }
}

/// Reads map entries from `pos` on up to a break, and says where the bytes
/// after the break start.
pub fn read_open_entries(bytes: &[u8], pos: usize, depth: usize) -> (r: Option<
    (Vec<(String, Value)>, usize),
>)
    ensures
        pos <= bytes@.len() ==> match parse_open_entries(bytes@.skip(pos as int), depth as nat) {
            Some((entries, used)) => r matches Some((pairs, next)) && entry_views(pairs@)
                == entries && next == pos + used && next <= bytes@.len(),
            None => r is None,
        },
        pos > bytes@.len() ==> r is None,
    decreases bytes@.len() - pos, 1nat,
{
    if pos > bytes.len() {
        return None;
    }
    let ghost whole = parse_open_entries(bytes@.skip(pos as int), depth as nat);
    let mut pairs: Vec<(String, Value)> = Vec::new();
    let mut cur: usize = pos;
    assert(whole == entries_after(
        entry_views(pairs@),
        0,
        parse_open_entries(bytes@.skip(cur as int), depth as nat),
    )) by {
        match parse_open_entries(bytes@.skip(cur as int), depth as nat) {
            Some((others, more)) => {
                assert(entry_views(pairs@) + others =~= others);
            },
            None => {},
        }
    }
    loop
        invariant
            pos <= cur <= bytes@.len(),
            whole == parse_open_entries(bytes@.skip(pos as int), depth as nat),
            whole == entries_after(
                entry_views(pairs@),
                (cur - pos) as nat,
                parse_open_entries(bytes@.skip(cur as int), depth as nat),
            ),
        decreases bytes@.len() - cur,
    {
        let ghost s = bytes@.skip(cur as int);
        let ghost before = entry_views(pairs@);
        if cur >= bytes.len() {
            return None;
        }
        if bytes[cur] == BREAK {
            assert(s[0] == BREAK);
            assert(before + Seq::<(Seq<char>, Item)>::empty() =~= before);
            return Some((pairs, cur + 1));
        }
        match read_text(bytes, cur) {
            None => {
                return None;
            },
            Some((key, mid)) => {
                if mid <= cur {
                    return None;
                }
                assert(s.skip(mid - cur) =~= bytes@.skip(mid as int));
                match read_item(bytes, mid, depth) {
                    None => {
                        return None;
                    },
                    Some((value, next)) => {
                        proof {
                            assert(s.skip(next - cur) =~= bytes@.skip(next as int));
                            let tail = parse_open_entries(
                                bytes@.skip(next as int),
                                depth as nat,
                            );
                            assert(entry_views(pairs@.push((key, value))) =~= before.push(
                                (key@, value@),
                            ));
                            match tail {
                                Some((others, more)) => {
                                    assert(before + (seq![(key@, value@)] + others)
                                        =~= before.push((key@, value@)) + others);
                                },
                                None => {},
                            }
                        }
                        pairs.push((key, value));
                        cur = next;
                    },
                }
            },
        }
    }
}

/// The value that `bytes` are, from the first byte to the last.
pub fn decode(bytes: &[u8]) -> (r: Option<Value>)
    ensures
        match parse_whole(bytes@) {
            Some(it) => r matches Some(value) && value@ == it,
            None => r is None,
        },
{
    assert(bytes@.skip(0) =~= bytes@);
    match read_item(bytes, 0, MAX_DEPTH) {
        Some((value, next)) => if next == bytes.len() {
            Some(value)
        } else {
            None
        },
        None => None,
    }
}

} // verus!
