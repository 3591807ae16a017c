//! The upload of one chunk of an image.

use vstd::prelude::*;
use vstd::slice::slice_to_vec;
use crate::application_management::failure::ErrorPayload;
use crate::cbor::value::{entry_views, Item, Value, MAX_DEPTH};
use crate::record::{bytes_in, entries_of, field, lemma_field_add, lemma_field_one, lookup, maybe, one, opt_bool, opt_bool_in, opt_bool_item, opt_bytes, opt_bytes_in, opt_bytes_item, opt_u64, opt_u64_in, opt_u8, opt_u8_in, opt_unsigned_item, put, put_optional, record_value, u64_in, Entries, lemma_field_without};
use crate::shape::{
    is_scalar, lemma_flat_record, lemma_reasoned_error_round_trip, 
    lemma_with_optional_round_trip, lemma_within_deeper, reasoned_error_in, reasoned_error_of,
    reasoned_error_record, reasoned_error_value, with_optional, with_optional_in,
    with_optional_of, with_optional_value,
};
use crate::smp::{Payload, Response};

verus! {

/// Asks the device to write a chunk of an image.
#[derive(Debug, Clone, PartialEq, Eq)]
pub struct WriteImageChunkRequest {
    /// The slot to write to; the device chooses where there is none.
    pub image: Option<u8>,
    /// The length of the whole image.
    pub len: Option<u64>,
    /// Where in the image this chunk starts.
    pub off: u64,
    /// The digest of the whole image.
    pub sha: Option<Vec<u8>>,
    /// The bytes of this chunk.
    pub data: Vec<u8>,
    /// Whether the device is to accept a newer version only.
    pub upgrade: Option<bool>,
}

/// A chunk request as a mathematical value.
pub struct ChunkRequestModel {
    pub image: Option<u8>,
    pub len: Option<u64>,
    pub off: u64,
    pub sha: Option<Seq<u8>>,
    pub data: Seq<u8>,
    pub upgrade: Option<bool>,
}

impl View for WriteImageChunkRequest {
    type V = ChunkRequestModel;

    open spec fn view(&self) -> ChunkRequestModel {
        ChunkRequestModel {
            image: self.image,
            len: self.len,
            off: self.off,
            sha: match self.sha {
                Some(h) => Some(h@),
                None => None,
            },
            data: self.data@,
            upgrade: self.upgrade,
        }
    }
}

/// The item of an optional slot number.
pub open spec fn opt_u8_item(x: Option<u8>) -> Option<Item> {
    match x {
        Some(n) => Some(Item::Unsigned(n as u64)),
        None => None,
    }
}

/// The entries of a chunk request: `image`, `len`, `sha` and `upgrade` where
/// the request has them, and `off` and `data`.
pub open spec fn chunk_entries(m: ChunkRequestModel) -> Entries {
    maybe("image"@, opt_u8_item(m.image)) + maybe("len"@, opt_unsigned_item(m.len)) + one(
        "off"@,
        Item::Unsigned(m.off),
    ) + maybe("sha"@, opt_bytes_item(m.sha)) + one("data"@, Item::Bytes(m.data)) + maybe(
        "upgrade"@,
        opt_bool_item(m.upgrade),
    )
}

/// The chunk request that a record is. The record holds `off` and `data`
/// and may hold `image`, `len`, `sha` and `upgrade`, each of its type; what
/// else it holds is passed over.
pub open spec fn chunk_of(it: Item) -> Option<ChunkRequestModel> {
    match it {
        Item::TextMap(e) => match (
            opt_u8(field(e, "image"@)),
            opt_u64(field(e, "len"@)),
            field(e, "off"@),
            opt_bytes(field(e, "sha"@)),
            field(e, "data"@),
            opt_bool(field(e, "upgrade"@)),
        ) {
            (
                Some(image),
                Some(len),
                Some(Item::Unsigned(off)),
                Some(sha),
                Some(Item::Bytes(data)),
                Some(upgrade),
            ) => Some(ChunkRequestModel { image, len, off, sha, data, upgrade }),
            _ => None,
        },
        _ => None,
    }
}

/// What is known of the six field names of a chunk request: enough to tell
/// any two of them apart.
pub proof fn lemma_chunk_keys()
    ensures
        "image"@.len() == 5,
        "len"@.len() == 3,
        "off"@.len() == 3,
        "sha"@.len() == 3,
        "data"@.len() == 4,
        "upgrade"@.len() == 7,
        "len"@[0] == 'l',
        "off"@[0] == 'o',
        "sha"@[0] == 's',
{
    reveal_strlit("image");
    reveal_strlit("len");
    reveal_strlit("off");
    reveal_strlit("sha");
    reveal_strlit("data");
    reveal_strlit("upgrade");
}

/// No field of a chunk request is an array or a map.
proof fn lemma_chunk_entries_scalar(m: ChunkRequestModel, i: int)
    requires
        0 <= i < chunk_entries(m).len(),
    ensures
        is_scalar(chunk_entries(m)[i].1),
{
    let a = maybe("image"@, opt_u8_item(m.image));
    let b = maybe("len"@, opt_unsigned_item(m.len));
    let c = one("off"@, Item::Unsigned(m.off));
    let d = maybe("sha"@, opt_bytes_item(m.sha));
    let f = one("data"@, Item::Bytes(m.data));
    let g = maybe("upgrade"@, opt_bool_item(m.upgrade));
    let e = chunk_entries(m);
    assert(e =~= a + b + c + d + f + g);
    if i < a.len() {
        assert(e[i] == a[i]);
    } else if i < a.len() + b.len() {
        assert(e[i] == b[i - a.len()]);
    } else if i < a.len() + b.len() + 1 {
        assert(e[i] == c[0]);
    } else if i < a.len() + b.len() + 1 + d.len() {
        assert(e[i] == d[i - a.len() - b.len() - 1]);
    } else if i < a.len() + b.len() + 1 + d.len() + 1 {
        assert(e[i] == f[0]);
    } else {
        assert(e[i] == g[i - a.len() - b.len() - d.len() - 2]);
    }
}

impl Payload for WriteImageChunkRequest {
    open spec fn record(m: ChunkRequestModel) -> Item {
        Item::TextMap(chunk_entries(m))
    }

    open spec fn from_record(it: Item) -> Option<ChunkRequestModel> {
        chunk_of(it)
    }

    proof fn lemma_record_round_trip(m: ChunkRequestModel) {
        broadcast use {lemma_field_add, lemma_field_one};

        lemma_chunk_keys();
        let e = chunk_entries(m);
        assert(field(e, "image"@) == opt_u8_item(m.image));
        assert(field(e, "len"@) == opt_unsigned_item(m.len));
        assert(field(e, "off"@) == Some(Item::Unsigned(m.off)));
        assert(field(e, "sha"@) == opt_bytes_item(m.sha));
        assert(field(e, "data"@) == Some(Item::Bytes(m.data)));
        assert(field(e, "upgrade"@) == opt_bool_item(m.upgrade));
        assert(chunk_of(Item::TextMap(e)) == Some(m));
        assert forall|i: int| 0 <= i < e.len() implies is_scalar((#[trigger] e[i]).1) by {
            lemma_chunk_entries_scalar(m, i);
        }
        lemma_flat_record(e);
        lemma_within_deeper(Self::record(m), 1, MAX_DEPTH as nat);
    }

    fn to_value(&self) -> (value: Value) {
        let mut entries: Vec<(String, Value)> = Vec::new();
        assert(entry_views(entries@) =~= Seq::<(Seq<char>, Item)>::empty());
        let image = match self.image {
            Some(n) => Some(Value::Unsigned(n as u64)),
            None => None,
        };
        let len = match self.len {
            Some(n) => Some(Value::Unsigned(n)),
            None => None,
        };
        let sha = match &self.sha {
            Some(h) => Some(Value::Bytes(slice_to_vec(h.as_slice()))),
            None => None,
        };
        let upgrade = match self.upgrade {
            Some(b) => Some(Value::Bool(b)),
            None => None,
        };
        put_optional(&mut entries, "image", image);
        put_optional(&mut entries, "len", len);
        put(&mut entries, "off", Value::Unsigned(self.off));
        put_optional(&mut entries, "sha", sha);
        put(&mut entries, "data", Value::Bytes(slice_to_vec(self.data.as_slice())));
        put_optional(&mut entries, "upgrade", upgrade);
        assert(entry_views(entries@) =~= chunk_entries(self@));
        record_value(entries)
    }

    fn from_value(value: &Value) -> (r: Option<Self>) {
        let entries = match entries_of(value) {
            Some(entries) => entries,
            None => {
                return None;
            },
        };
        let image = lookup(entries, "image");
        let len = lookup(entries, "len");
        let off = lookup(entries, "off");
        let sha = lookup(entries, "sha");
        let data = lookup(entries, "data");
        let upgrade = lookup(entries, "upgrade");
        let (off, data) = match (off, data) {
            (Some(o), Some(d)) => match (u64_in(o), bytes_in(d)) {
                (Some(off), Some(data)) => (off, data),
                _ => {
                    return None;
                },
            },
            _ => {
                return None;
            },
        };
        match (opt_u8_in(image), opt_u64_in(len), opt_bytes_in(sha), opt_bool_in(upgrade)) {
            (Some(image), Some(len), Some(sha), Some(upgrade)) => Some(
                WriteImageChunkRequest { image, len, off, sha, data, upgrade },
            ),
            _ => None,
        }
    }
}

/// What the device says after it has written a chunk.
#[derive(Debug, Clone, PartialEq, Eq)]
pub struct WriteImageChunkPayload {
    /// Where in the image the device wants the next chunk to start.
    pub off: u64,
    /// Whether the image that the device now holds has the digest it was
    /// announced with; absent until the device has compared them.
    pub match_: Option<bool>,
}

impl View for WriteImageChunkPayload {
    type V = (u64, Option<bool>);

    open spec fn view(&self) -> (u64, Option<bool>) {
        (self.off, self.match_)
    }
}

/// The answer to a chunk: the device's offset, or an error.
#[derive(Debug, Clone, PartialEq, Eq)]
pub enum WriteImageChunkResult {
    Success(WriteImageChunkPayload),
    Failure(ErrorPayload),
}

impl View for WriteImageChunkResult {
    type V = Result<(u64, Option<bool>), (i32, Option<Seq<char>>)>;

    open spec fn view(&self) -> Result<(u64, Option<bool>), (i32, Option<Seq<char>>)> {
        match self {
            WriteImageChunkResult::Success(payload) => Ok(payload@),
            WriteImageChunkResult::Failure(err) => Err(err@),
        }
    }
}

/// The field names of a chunk's answer and of an error differ from one another.
pub proof fn lemma_progress_keys()
    ensures
        "off"@ != "match"@,
        "off"@ != "rc"@,
        "off"@ != "rsn"@,
        "match"@ != "rc"@,
        "match"@ != "rsn"@,
        "rc"@ != "rsn"@,
{
    reveal_strlit("off");
    reveal_strlit("match");
    reveal_strlit("rc");
    reveal_strlit("rsn");
    assert("off"@.len() == 3);
    assert("match"@.len() == 5);
    assert("rc"@.len() == 2);
    assert("rsn"@.len() == 3);
    assert("off"@[0] == 'o');
    assert("rsn"@[0] == 'r');
}

impl WriteImageChunkResult {
    /// The offset and the digest flag of a record that holds `off`, an
    /// unsigned integer, and may hold `match`, a truth value.
    pub open spec fn success_of(it: Item) -> Option<(u64, Option<bool>)> {
        match with_optional_of(it, "off"@, "match"@) {
            Some((Item::Unsigned(off), flag)) => match opt_bool(flag) {
                Some(matched) => Some((off, matched)),
                None => None,
            },
            _ => None,
        }
    }

    /// The success, or what the device refused with.
    pub fn into_result(self) -> (r: Result<WriteImageChunkPayload, ErrorPayload>)
        ensures
            match self@ {
                Ok(m) => r matches Ok(payload) && payload@ == m,
                Err(e) => r matches Err(err) && err@ == e,
            },
    {
        match self {
            WriteImageChunkResult::Success(payload) => Ok(payload),
            WriteImageChunkResult::Failure(err) => Err(err),
        }
    }
}

impl Payload for WriteImageChunkResult {
    open spec fn record(m: Result<(u64, Option<bool>), (i32, Option<Seq<char>>)>) -> Item {
        match m {
            Ok((off, matched)) => with_optional(
                "off"@,
                Item::Unsigned(off),
                "match"@,
                opt_bool_item(matched),
            ),
            Err((rc, reason)) => reasoned_error_record(rc, reason),
        }
    }

    open spec fn from_record(it: Item) -> Option<
        Result<(u64, Option<bool>), (i32, Option<Seq<char>>)>,
    > {
        match Self::success_of(it) {
            Some(progress) => Some(Ok(progress)),
            None => match reasoned_error_of(it) {
                Some(e) => Some(Err(e)),
                None => None,
            },
        }
    }

    proof fn lemma_record_round_trip(m: Result<(u64, Option<bool>), (i32, Option<Seq<char>>)>) {
        lemma_progress_keys();
        match m {
            Ok((off, matched)) => {
                lemma_with_optional_round_trip(
                    "off"@,
                    Item::Unsigned(off),
                    "match"@,
                    opt_bool_item(matched),
                );
                let e = one("off"@, Item::Unsigned(off)) + maybe("match"@, opt_bool_item(matched));
                assert forall|i: int| 0 <= i < e.len() implies is_scalar((#[trigger] e[i]).1) by {
                    if i > 0 {
                        assert(e[i] == maybe("match"@, opt_bool_item(matched))[i - 1]);
                    }
                }
                lemma_flat_record(e);
            },
            Err((rc, reason)) => {
                lemma_reasoned_error_round_trip(rc, reason);
            },
        }
        lemma_within_deeper(Self::record(m), 1, MAX_DEPTH as nat);
    }

    fn to_value(&self) -> (value: Value) {
        match self {
            WriteImageChunkResult::Success(payload) => {
                let matched = match payload.match_ {
                    Some(b) => Some(Value::Bool(b)),
                    None => None,
                };
                with_optional_value("off", Value::Unsigned(payload.off), "match", matched)
            },
            WriteImageChunkResult::Failure(err) => reasoned_error_value(err.rc, &err.rsn),
        }
    }

    fn from_value(value: &Value) -> (r: Option<Self>) {
        let success = match with_optional_in(value, "off", "match") {
            Some((first, second)) => match (u64_in(first), opt_bool_in(second)) {
                (Some(off), Some(match_)) => Some(WriteImageChunkPayload { off, match_ }),
                _ => None,
            },
            None => None,
        };
        match success {
            Some(payload) => Some(WriteImageChunkResult::Success(payload)),
            None => match reasoned_error_in(value) {
                Some((rc, rsn)) => Some(WriteImageChunkResult::Failure(ErrorPayload { rc, rsn })),
                None => None,
            },
        }
    }
}

impl Response for WriteImageChunkResult {
    open spec fn success_shaped(it: Item) -> bool {
        Self::success_of(it) is Some
    }

    open spec fn error_shaped(it: Item) -> bool {
        !Self::success_shaped(it) && reasoned_error_of(it) is Some
    }

    open spec fn is_success(m: Result<(u64, Option<bool>), (i32, Option<Seq<char>>)>) -> bool {
        m is Ok
    }

    open spec fn knows(key: Seq<char>) -> bool {
        key == "off"@ || key == "match"@ || key == "rc"@ || key == "rsn"@
    }

    proof fn lemma_further_field(before: Entries, key: Seq<char>, item: Item, after: Entries) {
        lemma_field_without(before, key, item, after, "off"@);
        lemma_field_without(before, key, item, after, "match"@);
        lemma_field_without(before, key, item, after, "rc"@);
        lemma_field_without(before, key, item, after, "rsn"@);
    }

    proof fn lemma_two_shapes(it: Item) {
        lemma_progress_keys();
    }
}

} // verus!
