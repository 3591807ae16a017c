use mcumgr_smp::cbor::decode::{decode, read_item, read_text};
use mcumgr_smp::cbor::encode::{encode, write_text};
use mcumgr_smp::cbor::head::{read_head, write_head};
use mcumgr_smp::cbor::value::{Value, MAX_DEPTH};

fn head(major: u8, arg: u64) -> Vec<u8> {
    let mut out = Vec::new();
    write_head(&mut out, major, arg);
    out
}

#[test]
fn heads_take_the_shortest_form() {
    assert_eq!(head(0, 0), vec![0x00]);
    assert_eq!(head(0, 23), vec![0x17]);
    assert_eq!(head(0, 24), vec![0x18, 24]);
    assert_eq!(head(0, 255), vec![0x18, 0xff]);
    assert_eq!(head(0, 256), vec![0x19, 0x01, 0x00]);
    assert_eq!(head(0, 65535), vec![0x19, 0xff, 0xff]);
    assert_eq!(head(0, 65536), vec![0x1a, 0x00, 0x01, 0x00, 0x00]);
    assert_eq!(head(0, 0xffff_ffff), vec![0x1a, 0xff, 0xff, 0xff, 0xff]);
    assert_eq!(head(0, 0x1_0000_0000), vec![0x1b, 0, 0, 0, 1, 0, 0, 0, 0]);
    assert_eq!(head(0, u64::MAX), vec![0x1b, 255, 255, 255, 255, 255, 255, 255, 255]);
    assert_eq!(head(0, 0x0102_0304_0506_0708), vec![0x1b, 1, 2, 3, 4, 5, 6, 7, 8]);
}

#[test]
fn heads_carry_the_major_type_in_the_top_bits() {
    assert_eq!(head(1, 1), vec![0x21]);
    assert_eq!(head(2, 4), vec![0x44]);
    assert_eq!(head(3, 2), vec![0x62]);
    assert_eq!(head(4, 2), vec![0x82]);
    assert_eq!(head(5, 1), vec![0xa1]);
    assert_eq!(head(7, 22), vec![0xf6]);
    assert_eq!(head(5, 300), vec![0xb9, 0x01, 0x2c]);
}

#[test]
fn heads_are_appended_to_what_is_there() {
    let mut out = vec![9, 9];
    write_head(&mut out, 0, 500);
    assert_eq!(out, vec![9, 9, 0x19, 0x01, 0xf4]);
}

#[test]
fn read_head_reads_every_width() {
    assert_eq!(read_head(&[0x17], 0), Some((0, 23, 1)));
    assert_eq!(read_head(&[0x18, 5], 0), Some((0, 5, 2)));
    assert_eq!(read_head(&[0x19, 0, 5], 0), Some((0, 5, 3)));
    assert_eq!(read_head(&[0x1a, 0, 0, 1, 2], 0), Some((0, 258, 5)));
    assert_eq!(read_head(&[0x1b, 1, 2, 3, 4, 5, 6, 7, 8], 0), Some((0, 0x0102_0304_0506_0708, 9)));
    assert_eq!(read_head(&[0xff, 0x44], 1), Some((2, 4, 2)));
}

#[test]
fn read_head_rejects_what_is_no_head() {
    assert_eq!(read_head(&[], 0), None);
    assert_eq!(read_head(&[0x17], 1), None);
    assert_eq!(read_head(&[0x18], 0), None);
    assert_eq!(read_head(&[0x19, 1], 0), None);
    assert_eq!(read_head(&[0x1a, 1, 2, 3], 0), None);
    assert_eq!(read_head(&[0x1b, 1, 2, 3, 4, 5, 6, 7], 0), None);
    assert_eq!(read_head(&[0x1c], 0), None);
    assert_eq!(read_head(&[0x1d], 0), None);
    assert_eq!(read_head(&[0x1e], 0), None);
    assert_eq!(read_head(&[0x5f], 0), None);
}

#[test]
fn items_are_written_head_first() {
    assert_eq!(encode(&Value::Unsigned(0)), vec![0x00]);
    assert_eq!(encode(&Value::Unsigned(600)), vec![0x19, 0x02, 0x58]);
    assert_eq!(encode(&Value::Negative(0)), vec![0x20]);
    assert_eq!(encode(&Value::Negative(1)), vec![0x21]);
    assert_eq!(encode(&Value::Negative(255)), vec![0x38, 0xff]);
    assert_eq!(encode(&Value::Bytes(vec![1, 2, 3, 4])), vec![0x44, 1, 2, 3, 4]);
    assert_eq!(encode(&Value::Bytes(vec![])), vec![0x40]);
    assert_eq!(encode(&Value::Text("hi".to_string())), vec![0x62, b'h', b'i']);
    assert_eq!(encode(&Value::Text("\u{e9}".to_string())), vec![0x62, 0xc3, 0xa9]);
    assert_eq!(encode(&Value::Bool(false)), vec![0xf4]);
    assert_eq!(encode(&Value::Bool(true)), vec![0xf5]);
    assert_eq!(encode(&Value::Null), vec![0xf6]);
    assert_eq!(
        encode(&Value::Array(vec![Value::Unsigned(1), Value::Text("a".to_string())])),
        vec![0x82, 0x01, 0x61, b'a']
    );
    assert_eq!(
        encode(&Value::TextMap(vec![("rc".to_string(), Value::Negative(1))])),
        vec![0xa1, 0x62, b'r', b'c', 0x21]
    );
    assert_eq!(encode(&Value::TextMap(vec![])), vec![0xa0]);
}

#[test]
fn long_byte_strings_get_a_longer_head() {
    let bytes = encode(&Value::Bytes(vec![7; 256]));
    assert_eq!(bytes.len(), 259);
    assert_eq!(&bytes[..3], &[0x59, 0x01, 0x00]);
    assert_eq!(decode(&bytes), Some(Value::Bytes(vec![7; 256])));
}

#[test]
fn write_text_appends_head_and_utf8() {
    let mut out = vec![1];
    write_text(&mut out, "val");
    assert_eq!(out, vec![1, 0x63, b'v', b'a', b'l']);
}

fn sample() -> Value {
    Value::TextMap(vec![
        ("images".to_string(), Value::Array(vec![
            Value::TextMap(vec![
                ("slot".to_string(), Value::Unsigned(0)),
                ("version".to_string(), Value::Text("1.2.3".to_string())),
                ("hash".to_string(), Value::Bytes(vec![0xde, 0xad])),
                ("active".to_string(), Value::Bool(true)),
            ]),
            Value::Null,
        ])),
        ("splitStatus".to_string(), Value::Negative(4)),
    ])
}

#[test]
fn what_is_written_is_read_back() {
    let values = vec![
        Value::Unsigned(0),
        Value::Unsigned(23),
        Value::Unsigned(24),
        Value::Unsigned(65536),
        Value::Unsigned(u64::MAX),
        Value::Negative(0),
        Value::Negative(u64::MAX),
        Value::Bytes(vec![]),
        Value::Bytes(vec![0; 70000]),
        Value::Text(String::new()),
        Value::Text("gr\u{fc}\u{df}e \u{1f600}".to_string()),
        Value::Array(vec![]),
        Value::TextMap(vec![]),
        Value::Bool(true),
        Value::Bool(false),
        Value::Null,
        sample(),
    ];
    for value in values {
        assert_eq!(decode(&encode(&value)), Some(value));
    }
}

#[test]
fn arguments_wider_than_needed_are_read() {
    assert_eq!(decode(&[0x18, 5]), Some(Value::Unsigned(5)));
    assert_eq!(decode(&[0x19, 0, 5]), Some(Value::Unsigned(5)));
    assert_eq!(decode(&[0x1a, 0, 0, 0, 5]), Some(Value::Unsigned(5)));
    assert_eq!(decode(&[0x1b, 0, 0, 0, 0, 0, 0, 0, 5]), Some(Value::Unsigned(5)));
    assert_eq!(decode(&[0x58, 2, 1, 2]), Some(Value::Bytes(vec![1, 2])));
    assert_eq!(decode(&[0x78, 1, b'a']), Some(Value::Text("a".to_string())));
    assert_eq!(decode(&[0x98, 1, 0xf6]), Some(Value::Array(vec![Value::Null])));
}

#[test]
fn maps_keep_the_order_and_the_repeats_of_their_entries() {
    let bytes = [0xa2, 0x61, b'b', 0x01, 0x61, b'a', 0x02];
    assert_eq!(
        decode(&bytes),
        Some(Value::TextMap(vec![
            ("b".to_string(), Value::Unsigned(1)),
            ("a".to_string(), Value::Unsigned(2)),
        ]))
    );
    let twice = [0xa2, 0x61, b'a', 0x01, 0x61, b'a', 0x02];
    assert_eq!(
        decode(&twice),
        Some(Value::TextMap(vec![
            ("a".to_string(), Value::Unsigned(1)),
            ("a".to_string(), Value::Unsigned(2)),
        ]))
    );
}

#[test]
fn what_is_no_item_is_rejected() {
    assert_eq!(decode(&[]), None);
    assert_eq!(decode(&[0x00, 0x00]), None);
    assert_eq!(decode(&[0x44, 1, 2]), None);
    assert_eq!(decode(&[0x62, b'h']), None);
    assert_eq!(decode(&[0x62, 0xff, 0xfe]), None);
    assert_eq!(decode(&[0x62, 0xc3, 0x28]), None);
    assert_eq!(decode(&[0x82, 0x01]), None);
    assert_eq!(decode(&[0xa1, 0x01, 0x02]), None);
    assert_eq!(decode(&[0xa1, 0x61, b'a']), None);
    assert_eq!(decode(&[0xc0, 0x00]), None);
    assert_eq!(decode(&[0xf7]), None);
    assert_eq!(decode(&[0xf0]), None);
    assert_eq!(decode(&[0xf8, 0x20]), None);
    assert_eq!(decode(&[0xf8, 0x15]), None);
    assert_eq!(decode(&[0xf9, 0x00, 0x00]), None);
    assert_eq!(decode(&[0xfa, 0, 0, 0, 0]), None);
    assert_eq!(decode(&[0xfb, 0, 0, 0, 0, 0, 0, 0, 0]), None);
    assert_eq!(decode(&[0x5f, 0x41, 0x00, 0xff]), None);
    assert_eq!(decode(&[0x7f, 0x61, b'a', 0xff]), None);
    assert_eq!(decode(&[0xff]), None);
}

#[test]
fn a_length_beyond_the_input_is_rejected() {
    assert_eq!(decode(&[0x5b, 0xff, 0xff, 0xff, 0xff, 0xff, 0xff, 0xff, 0xff, 0x00]), None);
    assert_eq!(decode(&[0x9b, 0xff, 0xff, 0xff, 0xff, 0xff, 0xff, 0xff, 0xff, 0x00]), None);
    assert_eq!(decode(&[0xbb, 0xff, 0xff, 0xff, 0xff, 0xff, 0xff, 0xff, 0xff, 0x00]), None);
    assert_eq!(decode(&[0x7a, 0x00, 0x00, 0x00, 0x02, b'a']), None);
}

fn nested(levels: usize) -> Vec<u8> {
    let mut bytes = vec![0x81; levels - 1];
    bytes.push(0x80);
    bytes
}

#[test]
fn nesting_is_read_down_to_the_limit() {
    assert_eq!(MAX_DEPTH, 16);
    assert!(decode(&nested(1)).is_some());
    assert!(decode(&nested(MAX_DEPTH)).is_some());
    assert_eq!(decode(&nested(MAX_DEPTH + 1)), None);
    assert_eq!(decode(&nested(5000)), None);
    let mut value = Value::Array(vec![]);
    for _ in 1..MAX_DEPTH {
        value = Value::Array(vec![value]);
    }
    assert_eq!(encode(&value), nested(MAX_DEPTH));
    assert_eq!(decode(&nested(MAX_DEPTH)), Some(value));
}

#[test]
fn read_item_says_where_the_next_item_starts() {
    let bytes = [0xf6, 0x62, b'h', b'i', 0x19, 0x02, 0x58, 0x00];
    assert_eq!(read_item(&bytes, 0, 4), Some((Value::Null, 1)));
    assert_eq!(read_item(&bytes, 1, 4), Some((Value::Text("hi".to_string()), 4)));
    assert_eq!(read_item(&bytes, 4, 0), Some((Value::Unsigned(600), 7)));
    assert_eq!(read_item(&bytes, 7, 0), Some((Value::Unsigned(0), 8)));
    assert_eq!(read_item(&bytes, 8, 4), None);
    assert_eq!(read_item(&[0x80], 0, 0), None);
    assert_eq!(read_item(&[0xa0], 0, 0), None);
    assert_eq!(read_item(&[0x80], 0, 1), Some((Value::Array(vec![]), 1)));
}

#[test]
fn read_text_reads_text_only() {
    assert_eq!(read_text(&[0x61, b'x', 0x00], 0), Some(("x".to_string(), 2)));
    assert_eq!(read_text(&[0x41, b'x'], 0), None);
    assert_eq!(read_text(&[0x01], 0), None);
    assert_eq!(read_text(&[0x61], 0), None);
}

#[test]
fn arrays_and_maps_closed_by_a_break_are_read() {
    assert_eq!(decode(&[0x9f, 0xff]), Some(Value::Array(vec![])));
    assert_eq!(decode(&[0xbf, 0xff]), Some(Value::TextMap(vec![])));
    assert_eq!(
        decode(&[0xbf, 0x62, b'r', b'c', 0x21, 0xff]),
        Some(Value::TextMap(vec![("rc".to_string(), Value::Negative(1))]))
    );
    assert_eq!(
        decode(&[0x9f, 0x01, 0x82, 0x02, 0x03, 0x9f, 0xff, 0xff]),
        Some(Value::Array(vec![
            Value::Unsigned(1),
            Value::Array(vec![Value::Unsigned(2), Value::Unsigned(3)]),
            Value::Array(vec![]),
        ]))
    );
    assert_eq!(
        decode(&[0xbf, 0x61, b'a', 0xbf, 0x61, b'b', 0x9f, 0xf5, 0xff, 0xff, 0x61, b'c', 0xa0, 0xff]),
        Some(Value::TextMap(vec![
            (
                "a".to_string(),
                Value::TextMap(vec![("b".to_string(), Value::Array(vec![Value::Bool(true)]))])
            ),
            ("c".to_string(), Value::TextMap(vec![])),
        ]))
    );
    assert_eq!(
        decode(&[0x81, 0xbf, 0x61, b'a', 0x01, 0xff]),
        Some(Value::Array(vec![Value::TextMap(vec![("a".to_string(), Value::Unsigned(1))])]))
    );
}

#[test]
fn an_array_or_a_map_that_is_not_closed_is_rejected() {
    assert_eq!(decode(&[0x9f]), None);
    assert_eq!(decode(&[0xbf]), None);
    assert_eq!(decode(&[0x9f, 0x01]), None);
    assert_eq!(decode(&[0xbf, 0x61, b'a', 0x01]), None);
    assert_eq!(decode(&[0xbf, 0x61, b'a', 0xff]), None);
    assert_eq!(decode(&[0xbf, 0x01, 0x02, 0xff]), None);
    assert_eq!(decode(&[0x9f, 0xff, 0x00]), None);
    assert_eq!(decode(&[0x9f, 0xff, 0xff]), None);
    assert_eq!(decode(&[0x82, 0x01, 0xff]), None);
    assert_eq!(decode(&[0x9f, 0x9f, 0xff]), None);
}

#[test]
fn the_limit_of_nesting_holds_for_what_is_closed_by_a_break() {
    let open = |levels: usize| {
        let mut bytes = vec![0x9f; levels];
        bytes.extend(vec![0xff; levels]);
        bytes
    };
    assert!(decode(&open(1)).is_some());
    assert!(decode(&open(MAX_DEPTH)).is_some());
    assert_eq!(decode(&open(MAX_DEPTH + 1)), None);
    assert_eq!(decode(&vec![0x9f; 100_000]), None);
    assert_eq!(decode(&vec![0xbf; 100_000]), None);
    assert_eq!(read_item(&[0x9f, 0xff], 0, 0), None);
    assert_eq!(read_item(&[0x9f, 0xff], 0, 1), Some((Value::Array(vec![]), 2)));
    assert_eq!(read_item(&[0x00, 0xbf, 0xff, 0x00], 1, 1), Some((Value::TextMap(vec![]), 3)));
}
